//! Preparing the binary of a remote host, step by step: finding one that fits this
//! client, or installing it where the user agrees.
use crate::host::ClientBuild;
use crate::host::RemoteHerdr;
use crate::host::WHICH_COMMAND;
use crate::host::remote_binary_exists_script;
use crate::host::remote_binary_match_script;
use crate::host::warn_if_remote_bin_not_on_path;
use crate::host;
use crate::install::install_source_description;
use crate::install;
use crate::report::CommandOutput;
use crate::report::Failure;
use crate::report::RemoteError;
use crate::report::other_error;
use crate::report;
use crate::server::RemoteServerStatus;
use crate::server::Verdict;
use crate::server::answer_install_with_running_server;
use crate::server::answer_remote_install;
use crate::server::confirm_remote_install;
use crate::server::confirm_remote_install_with_running_server;
use crate::server::server_status_command;
use crate::server::text_of;
use crate::server;
use crate::text;
use vstd::prelude::*;
use vstd::string::*;

verus! {

/// What is known of a host before its binary is prepared, and how that may be done.
#[derive(Debug)]
pub struct PrepareTask {
    pub client: ClientBuild,
    /// The ssh destination.
    pub target: String,
    /// The binary that is installed and replaced.
    pub remote_herdr: RemoteHerdr,
    /// The file that the user wants to be installed.
    pub override_binary: Option<String>,
    /// The binaries that were found.
    pub candidates: Vec<RemoteHerdr>,
    /// Whether a running server may hand over to an installed one.
    pub live_handoff_enabled: bool,
    /// Whether the user can be asked.
    pub terminal: bool,
}

/// How far the preparation has come.
#[derive(Debug, Clone, PartialEq, Eq)]
pub enum PrepareStage {
    /// A binary is to be compared with this client: the candidate of this number, or
    /// behind the last one the binary that is installed and replaced.
    Probe { next: usize },
    /// Whether there is a binary to replace is to be seen.
    Exists,
    /// The status of the running server is wanted.
    Status,
    /// The user is to agree to an installation under the running server, which is
    /// stopped then where its status is known.
    Approve { known: bool, prompt: String },
    /// The user is to agree to the installation.
    Confirm { stop: bool, prompt: String },
    /// The binary is to be installed.
    Install { stop: bool },
    /// The installed binary is to be compared with this client.
    Verify { stop: bool },
    /// Whether the shell of the host finds the installed binary is to be seen.
    PathCheck { stop: bool },
    /// The binary is prepared: the candidate of this number, or the one that is
    /// installed and replaced.
    Done { candidate: Option<usize>, installed: bool, stop: bool },
    /// The binary cannot be prepared.
    Failed(Failure),
}

/// A stage as its text.
#[verifier::ext_equal]
pub enum PrepareModel {
    Probe { next: int },
    Exists,
    Status,
    Approve { known: bool, prompt: Seq<char> },
    Confirm { stop: bool, prompt: Seq<char> },
    Install { stop: bool },
    Verify { stop: bool },
    PathCheck { stop: bool },
    Done { candidate: Option<usize>, installed: bool, stop: bool },
    Failed(report::FailureModel),
}

impl DeepView for PrepareStage {
    type V = PrepareModel;

    open spec fn deep_view(&self) -> PrepareModel {
        match self {
            PrepareStage::Probe { next } => PrepareModel::Probe { next: *next as int },
            PrepareStage::Exists => PrepareModel::Exists,
            PrepareStage::Status => PrepareModel::Status,
            PrepareStage::Approve { known, prompt } => PrepareModel::Approve {
                known: *known,
                prompt: prompt@,
            },
            PrepareStage::Confirm { stop, prompt } => PrepareModel::Confirm {
                stop: *stop,
                prompt: prompt@,
            },
            PrepareStage::Install { stop } => PrepareModel::Install { stop: *stop },
            PrepareStage::Verify { stop } => PrepareModel::Verify { stop: *stop },
            PrepareStage::PathCheck { stop } => PrepareModel::PathCheck { stop: *stop },
            PrepareStage::Done { candidate, installed, stop } => PrepareModel::Done {
                candidate: *candidate,
                installed: *installed,
                stop: *stop,
            },
            PrepareStage::Failed(failure) => PrepareModel::Failed(failure.deep_view()),
        }
    }
}

/// What a stage asks for.
#[derive(Debug, Clone, PartialEq, Eq)]
pub enum PrepareRequest {
    /// Whether the binary that answers this script is the one of this client.
    Match(String),
    /// The output of this script.
    Script(String),
    /// The output of this command in the user's shell.
    UserShell(String),
    /// The status that this command tells.
    Status(String),
    /// The user's answer to this prompt.
    Ask(String),
    /// The installation of the binary.
    Install,
    /// Nothing more.
    Nothing,
}

/// A request as its text.
pub enum PrepareRequestModel {
    Match(Seq<char>),
    Script(Seq<char>),
    UserShell(Seq<char>),
    Status(Seq<char>),
    Ask(Seq<char>),
    Install,
    Nothing,
}

impl DeepView for PrepareRequest {
    type V = PrepareRequestModel;

    open spec fn deep_view(&self) -> PrepareRequestModel {
        match self {
            PrepareRequest::Match(script) => PrepareRequestModel::Match(script@),
            PrepareRequest::Script(script) => PrepareRequestModel::Script(script@),
            PrepareRequest::UserShell(command) => PrepareRequestModel::UserShell(command@),
            PrepareRequest::Status(command) => PrepareRequestModel::Status(command@),
            PrepareRequest::Ask(prompt) => PrepareRequestModel::Ask(prompt@),
            PrepareRequest::Install => PrepareRequestModel::Install,
            PrepareRequest::Nothing => PrepareRequestModel::Nothing,
        }
    }
}

/// What came of a request.
#[derive(Debug, PartialEq, Eq)]
pub enum PrepareEvent {
    /// It failed.
    Lost,
    /// Whether the binary is the one of this client.
    Matched(bool),
    /// The output of a script or a command.
    Output(CommandOutput),
    /// A server's status, or why it could not be had.
    Status(Result<RemoteServerStatus, String>),
    /// A user's answer.
    Answer(String),
    /// The binary is installed.
    Installed,
}

/// The binary that tells the status of a running server: the first candidate, or the
/// one that is replaced.
pub open spec fn status_probe(task: PrepareTask) -> host::HerdrModel {
    if task.candidates@.len() > 0 {
        task.candidates@[0].deep_view()
    } else {
        task.remote_herdr.deep_view()
    }
}

/// The binary that is compared at this number.
pub open spec fn probed(task: PrepareTask, next: int) -> host::HerdrModel {
    if 0 <= next < task.candidates@.len() {
        task.candidates@[next].deep_view()
    } else {
        task.remote_herdr.deep_view()
    }
}

/// What a stage asks for.
pub open spec fn prepare_request_of(task: PrepareTask, stage: PrepareModel) -> PrepareRequestModel {
    match stage {
        PrepareModel::Probe { next } => PrepareRequestModel::Match(
            host::match_script(probed(task, next).shell_path),
        ),
        PrepareModel::Exists => PrepareRequestModel::Script(
            "test -x "@ + task.remote_herdr.shell_path@,
        ),
        PrepareModel::Status => PrepareRequestModel::Status(
            status_probe(task).shell_path + " status server --json"@,
        ),
        PrepareModel::Approve { prompt, .. } => PrepareRequestModel::Ask(prompt),
        PrepareModel::Confirm { prompt, .. } => PrepareRequestModel::Ask(prompt),
        PrepareModel::Install { .. } => PrepareRequestModel::Install,
        PrepareModel::Verify { .. } => PrepareRequestModel::Match(
            host::match_script(task.remote_herdr.shell_path@),
        ),
        PrepareModel::PathCheck { .. } => PrepareRequestModel::UserShell(WHICH_COMMAND@),
        PrepareModel::Done { .. } | PrepareModel::Failed(_) => PrepareRequestModel::Nothing,
    }
}

/// What a stage asks for.
pub fn prepare_request(task: &PrepareTask, stage: &PrepareStage) -> (res: PrepareRequest)
    ensures
        res.deep_view() == prepare_request_of(*task, stage.deep_view()),
{
    match stage {
        PrepareStage::Probe { next } => {
            if *next < task.candidates.len() {
                PrepareRequest::Match(remote_binary_match_script(&task.candidates[*next]))
            } else {
                PrepareRequest::Match(remote_binary_match_script(&task.remote_herdr))
            }
        },
        PrepareStage::Exists => PrepareRequest::Script(
            remote_binary_exists_script(&task.remote_herdr),
        ),
        PrepareStage::Status => {
            if task.candidates.len() > 0 {
                PrepareRequest::Status(server_status_command(&task.candidates[0]))
            } else {
                PrepareRequest::Status(server_status_command(&task.remote_herdr))
            }
        },
        PrepareStage::Approve { prompt, .. } => PrepareRequest::Ask(prompt.clone()),
        PrepareStage::Confirm { prompt, .. } => PrepareRequest::Ask(prompt.clone()),
        PrepareStage::Install { .. } => PrepareRequest::Install,
        PrepareStage::Verify { .. } => PrepareRequest::Match(
            remote_binary_match_script(&task.remote_herdr),
        ),
        PrepareStage::PathCheck { .. } => PrepareRequest::UserShell(WHICH_COMMAND.to_string()),
        PrepareStage::Done { .. } => PrepareRequest::Nothing,
        PrepareStage::Failed(_) => PrepareRequest::Nothing,
    }
}

/// The stage at which no binary was found to fit: an installation begins with the
/// status of the running server, which takes a binary to ask for it.
pub open spec fn none_fits(task: PrepareTask) -> PrepareModel {
    if task.candidates@.len() > 0 {
        PrepareModel::Status
    } else {
        PrepareModel::Exists
    }
}

/// The first stage. A file that the user wants to be installed is installed whatever
/// there is.
pub open spec fn first_stage(task: PrepareTask) -> PrepareModel {
    if task.override_binary is None {
        PrepareModel::Probe { next: 0 }
    } else {
        none_fits(task)
    }
}

/// The stage at which the user is asked about the installation, and what the user
/// reads before.
pub open spec fn ask_install(task: PrepareTask, stop: bool) -> (Seq<Seq<char>>, PrepareModel) {
    let (say, verdict) = server::install_approval(
        task.client,
        task.target@,
        task.remote_herdr.deep_view(),
        install::source_description(
            task.client,
            task.remote_herdr.platform.deep_view(),
            task.override_binary.deep_view(),
            false,
        ),
        task.terminal,
    );
    (
        say,
        match verdict {
            server::VerdictModel::Settled(_) => PrepareModel::Install { stop },
            server::VerdictModel::Ask(prompt) => PrepareModel::Confirm { stop, prompt },
            server::VerdictModel::Refuse(error) => PrepareModel::Failed(
                report::FailureModel::Own(error),
            ),
        },
    )
}

/// Where the status of the running server leads.
pub open spec fn after_server_status(
    task: PrepareTask,
    status: Result<RemoteServerStatus, String>,
) -> (Seq<Seq<char>>, PrepareModel) {
    let (say, verdict) = server::install_question(
        task.client,
        task.target@,
        server::status_or_cause(status),
        task.live_handoff_enabled,
        task.terminal,
    );
    match verdict {
        server::VerdictModel::Settled(stop) => {
            let (more, next) = ask_install(task, stop);
            (say + more, next)
        },
        server::VerdictModel::Ask(prompt) => (
            say,
            PrepareModel::Approve { known: status is Ok, prompt },
        ),
        server::VerdictModel::Refuse(error) => (
            say,
            PrepareModel::Failed(report::FailureModel::Own(error)),
        ),
    }
}

/// The error about an installed binary that is not the one of this client.
pub open spec fn wrong_install(task: PrepareTask) -> report::ErrorModel {
    report::plain_error(
        "installed remote herdr at "@ + task.remote_herdr.shell_path@
            + ", but it did not report version "@ + task.client.version@,
    )
}

/// Where an event leads: what the user reads, and the next stage. An event that a
/// stage did not ask for leaves it.
pub open spec fn next_prepare(task: PrepareTask, stage: PrepareModel, event: PrepareEvent) -> (
    Seq<Seq<char>>,
    PrepareModel,
) {
    let nothing = Seq::<Seq<char>>::empty();
    let cause = (nothing, PrepareModel::Failed(report::FailureModel::Cause));
    match (stage, event) {
        (PrepareModel::Probe { next }, PrepareEvent::Matched(fits)) => (
            nothing,
            if fits {
                PrepareModel::Done {
                    candidate: if next < task.candidates@.len() {
                        Some(next as usize)
                    } else {
                        None
                    },
                    installed: false,
                    stop: false,
                }
            } else if next < task.candidates@.len() {
                PrepareModel::Probe { next: next + 1 }
            } else {
                none_fits(task)
            },
        ),
        (PrepareModel::Probe { next }, PrepareEvent::Lost) => if next < task.candidates@.len() {
            (nothing, PrepareModel::Probe { next: next + 1 })
        } else {
            cause
        },
        (PrepareModel::Exists, PrepareEvent::Output(output)) => if output.success {
            (nothing, PrepareModel::Status)
        } else {
            ask_install(task, false)
        },
        (PrepareModel::Exists, PrepareEvent::Lost) => ask_install(task, false),
        (PrepareModel::Status, PrepareEvent::Status(status)) => after_server_status(task, status),
        (PrepareModel::Approve { known, .. }, PrepareEvent::Answer(answer)) => if server::says_yes(
            answer@,
        ) {
            ask_install(task, known)
        } else {
            (
                nothing,
                PrepareModel::Failed(report::FailureModel::Own(server::install_cancelled())),
            )
        },
        (PrepareModel::Approve { .. }, PrepareEvent::Lost) => cause,
        (PrepareModel::Confirm { stop, .. }, PrepareEvent::Answer(answer)) => (
            nothing,
            if server::says_no(answer@) {
                PrepareModel::Failed(report::FailureModel::Own(server::installation_cancelled()))
            } else {
                PrepareModel::Install { stop }
            },
        ),
        (PrepareModel::Confirm { .. }, PrepareEvent::Lost) => cause,
        (PrepareModel::Install { stop }, PrepareEvent::Installed) => (
            nothing,
            PrepareModel::Verify { stop },
        ),
        (PrepareModel::Install { .. }, PrepareEvent::Lost) => cause,
        (PrepareModel::Verify { stop }, PrepareEvent::Matched(fits)) => (
            nothing,
            if fits {
                PrepareModel::PathCheck { stop }
            } else {
                PrepareModel::Failed(report::FailureModel::Own(wrong_install(task)))
            },
        ),
        (PrepareModel::Verify { .. }, PrepareEvent::Lost) => cause,
        (PrepareModel::PathCheck { stop }, PrepareEvent::Output(output)) => (
            if host::path_warning_due(output) {
                seq![host::PATH_WARNING@]
            } else {
                nothing
            },
            PrepareModel::Done { candidate: None, installed: true, stop },
        ),
        (PrepareModel::PathCheck { .. }, PrepareEvent::Lost) => cause,
        _ => (nothing, stage),
    }
}

fn no_lines() -> (res: Vec<String>)
    ensures
        res.deep_view() == Seq::<Seq<char>>::empty(),
{
    let lines: Vec<String> = Vec::new();
    assert(lines.deep_view() =~= Seq::<Seq<char>>::empty());
    lines
}

fn stage_none_fits(task: &PrepareTask) -> (res: PrepareStage)
    ensures
        res.deep_view() == none_fits(*task),
{
    if task.candidates.len() > 0 {
        PrepareStage::Status
    } else {
        PrepareStage::Exists
    }
}

/// The first stage.
pub fn begin_prepare(task: &PrepareTask) -> (res: PrepareStage)
    ensures
        res.deep_view() == first_stage(*task),
{
    if task.override_binary.is_none() {
        PrepareStage::Probe { next: 0 }
    } else {
        stage_none_fits(task)
    }
}

fn stage_ask_install(task: &PrepareTask, stop: bool) -> (res: (Vec<String>, PrepareStage))
    ensures
        (res.0.deep_view(), res.1.deep_view()) == ask_install(*task, stop),
{
    let description = install_source_description(
        &task.client,
        &task.remote_herdr.platform,
        text_of(&task.override_binary),
    );
    let (say, verdict) = confirm_remote_install(
        &task.client,
        task.target.as_str(),
        &task.remote_herdr,
        description.as_str(),
        task.terminal,
    );
    let stage = match verdict {
        Verdict::Settled(_) => PrepareStage::Install { stop },
        Verdict::Ask(prompt) => PrepareStage::Confirm { stop, prompt },
        Verdict::Refuse(error) => PrepareStage::Failed(Failure::Own(error)),
    };
    (say, stage)
}

fn stage_after_status(task: &PrepareTask, status: Result<RemoteServerStatus, String>) -> (res: (
    Vec<String>,
    PrepareStage,
))
    ensures
        (res.0.deep_view(), res.1.deep_view()) == after_server_status(*task, status),
{
    let (say, verdict) = confirm_remote_install_with_running_server(
        &task.client,
        task.target.as_str(),
        &status,
        task.live_handoff_enabled,
        task.terminal,
    );
    match verdict {
        Verdict::Settled(stop) => {
            let (more, stage) = stage_ask_install(task, stop);
            let ghost first = say.deep_view();
            let ghost second = more.deep_view();
            let mut say = say;
            let mut more = more;
            say.append(&mut more);
            assert(say.deep_view() =~= first + second);
            (say, stage)
        },
        Verdict::Ask(prompt) => (say, PrepareStage::Approve { known: status.is_ok(), prompt }),
        Verdict::Refuse(error) => (say, PrepareStage::Failed(Failure::Own(error))),
    }
}

fn wrong_install_error(task: &PrepareTask) -> (res: RemoteError)
    ensures
        res.deep_view() == wrong_install(*task),
{
    let mut message = "installed remote herdr at ".to_string();
    message.append(task.remote_herdr.shell_path.as_str());
    message.append(", but it did not report version ");
    message.append(task.client.version.as_str());
    other_error(message)
}

/// Where an event leads: what the user reads, and the next stage. An event that a
/// stage did not ask for leaves it.
pub fn prepare_remote_herdr(task: &PrepareTask, stage: PrepareStage, event: PrepareEvent) -> (res: (
    Vec<String>,
    PrepareStage,
))
    ensures
        (res.0.deep_view(), res.1.deep_view()) == next_prepare(*task, stage.deep_view(), event),
{
    let ghost next_step = next_prepare(*task, stage.deep_view(), event);
    match (stage, event) {
        (PrepareStage::Probe { next }, PrepareEvent::Matched(fits)) => {
            let stage = if fits {
                let candidate = if next < task.candidates.len() {
                    Some(next)
                } else {
                    None
                };
                PrepareStage::Done { candidate, installed: false, stop: false }
            } else if next < task.candidates.len() {
                PrepareStage::Probe { next: next + 1 }
            } else {
                stage_none_fits(task)
            };
            (no_lines(), stage)
        },
        (PrepareStage::Probe { next }, PrepareEvent::Lost) => {
            if next < task.candidates.len() {
                (no_lines(), PrepareStage::Probe { next: next + 1 })
            } else {
                (no_lines(), PrepareStage::Failed(Failure::Cause))
            }
        },
        (PrepareStage::Exists, PrepareEvent::Output(output)) => {
            if output.success {
                (no_lines(), PrepareStage::Status)
            } else {
                stage_ask_install(task, false)
            }
        },
        (PrepareStage::Exists, PrepareEvent::Lost) => stage_ask_install(task, false),
        (PrepareStage::Status, PrepareEvent::Status(status)) => stage_after_status(task, status),
        (PrepareStage::Approve { known, .. }, PrepareEvent::Answer(answer)) => {
            match answer_install_with_running_server(known, answer.as_str()) {
                Ok(stop) => stage_ask_install(task, stop),
                Err(error) => (no_lines(), PrepareStage::Failed(Failure::Own(error))),
            }
        },
        (PrepareStage::Approve { .. }, PrepareEvent::Lost) => (
            no_lines(),
            PrepareStage::Failed(Failure::Cause),
        ),
        (PrepareStage::Confirm { stop, .. }, PrepareEvent::Answer(answer)) => {
            match answer_remote_install(answer.as_str()) {
                Ok(()) => (no_lines(), PrepareStage::Install { stop }),
                Err(error) => (no_lines(), PrepareStage::Failed(Failure::Own(error))),
            }
        },
        (PrepareStage::Confirm { .. }, PrepareEvent::Lost) => (
            no_lines(),
            PrepareStage::Failed(Failure::Cause),
        ),
        (PrepareStage::Install { stop }, PrepareEvent::Installed) => (
            no_lines(),
            PrepareStage::Verify { stop },
        ),
        (PrepareStage::Install { .. }, PrepareEvent::Lost) => (
            no_lines(),
            PrepareStage::Failed(Failure::Cause),
        ),
        (PrepareStage::Verify { stop }, PrepareEvent::Matched(fits)) => {
            if fits {
                (no_lines(), PrepareStage::PathCheck { stop })
            } else {
                (no_lines(), PrepareStage::Failed(Failure::Own(wrong_install_error(task))))
            }
        },
        (PrepareStage::Verify { .. }, PrepareEvent::Lost) => (
            no_lines(),
            PrepareStage::Failed(Failure::Cause),
        ),
        (PrepareStage::PathCheck { stop }, PrepareEvent::Output(output)) => {
            let mut say = no_lines();
            if let Some(warning) = warn_if_remote_bin_not_on_path(&output) {
                say.push(warning.to_string());
                assert(say.deep_view() =~= next_step.0);
            }
            (say, PrepareStage::Done { candidate: None, installed: true, stop })
        },
        (PrepareStage::PathCheck { .. }, PrepareEvent::Lost) => (
            no_lines(),
            PrepareStage::Failed(Failure::Cause),
        ),
        (stage, _) => (no_lines(), stage),
    }
}

/// A binary that is prepared.
#[derive(Debug)]
pub struct PreparedRemoteHerdr {
    pub remote_herdr: RemoteHerdr,
    pub installed_or_replaced: bool,
    pub stop_after_install_approved: bool,
}

/// The binary that is prepared at a stage, if one is.
pub fn prepared_herdr(task: &PrepareTask, stage: &PrepareStage) -> (res: Option<
    PreparedRemoteHerdr,
>)
    ensures
        match stage.deep_view() {
            PrepareModel::Done { candidate, installed, stop } => res is Some
                && res->Some_0.remote_herdr.deep_view() == (match candidate {
                Some(number) => probed(*task, number as int),
                None => task.remote_herdr.deep_view(),
            }) && res->Some_0.installed_or_replaced == installed
                && res->Some_0.stop_after_install_approved == stop,
            _ => res is None,
        },
{
    match stage {
        PrepareStage::Done { candidate, installed, stop } => {
            let remote_herdr = match candidate {
                Some(number) => {
                    if *number < task.candidates.len() {
                        task.candidates[*number].clone()
                    } else {
                        task.remote_herdr.clone()
                    }
                },
                None => task.remote_herdr.clone(),
            };
            Some(
                PreparedRemoteHerdr {
                    remote_herdr,
                    installed_or_replaced: *installed,
                    stop_after_install_approved: *stop,
                },
            )
        },
        _ => None,
    }
}

/// The stage that a series of events leads to from the first one.
pub open spec fn prepare_after(task: PrepareTask, events: Seq<PrepareEvent>) -> PrepareModel
    decreases events.len(),
{
    if events.len() == 0 {
        first_stage(task)
    } else {
        next_prepare(task, prepare_after(task, events.drop_last()), events.last()).1
    }
}

/// Whether an event is an answer that agrees.
pub open spec fn yes_event(event: PrepareEvent) -> bool {
    event matches PrepareEvent::Answer(answer) && server::says_yes(answer@)
}

/// Whether an event is an answer that does not decline.
pub open spec fn undeclined_event(event: PrepareEvent) -> bool {
    event matches PrepareEvent::Answer(answer) && !server::says_no(answer@)
}

/// Whether a stage lies behind the question about the installation.
pub open spec fn installing(stage: PrepareModel) -> bool {
    match stage {
        PrepareModel::Install { .. } | PrepareModel::Verify { .. } | PrepareModel::PathCheck {
            ..
        } => true,
        PrepareModel::Done { installed, .. } => installed,
        _ => false,
    }
}

/// Whether the running server is to be stopped after the installation.
pub open spec fn stopping(stage: PrepareModel) -> bool {
    match stage {
        PrepareModel::Confirm { stop, .. } => stop,
        PrepareModel::Install { stop } => stop,
        PrepareModel::Verify { stop } => stop,
        PrepareModel::PathCheck { stop } => stop,
        PrepareModel::Done { stop, .. } => stop,
        _ => false,
    }
}

/// Nothing is installed without a terminal and an answer there that does not decline.
pub proof fn law_install_needs_consent(task: PrepareTask, events: Seq<PrepareEvent>)
    ensures
        installing(prepare_after(task, events)) ==> task.terminal && exists|i: int|
            0 <= i < events.len() && undeclined_event(#[trigger] events[i]),
        (prepare_after(task, events) is Confirm || prepare_after(task, events) is Approve)
            ==> task.terminal,
    decreases events.len(),
{
    if events.len() > 0 {
        let front = events.drop_last();
        law_install_needs_consent(task, front);
        let before = prepare_after(task, front);
        if installing(before) {
            let i = choose|i: int| 0 <= i < front.len() && undeclined_event(#[trigger] front[i]);
            assert(undeclined_event(events[i]));
        } else if installing(prepare_after(task, events)) {
            assert(undeclined_event(events[events.len() - 1]));
        }
    }
}

/// A binary counts as prepared only after one was compared with this client and found
/// to be the same.
pub proof fn law_prepared_binary_was_compared(task: PrepareTask, events: Seq<PrepareEvent>)
    ensures
        (match prepare_after(task, events) {
            PrepareModel::PathCheck { .. } => true,
            PrepareModel::Done { .. } => true,
            _ => false,
        }) ==> events.contains(PrepareEvent::Matched(true)),
    decreases events.len(),
{
    if events.len() > 0 {
        let front = events.drop_last();
        law_prepared_binary_was_compared(task, front);
        if front.contains(PrepareEvent::Matched(true)) {
            let i = choose|i: int|
                0 <= i < front.len() && front[i] == PrepareEvent::Matched(true);
            assert(events[i] == PrepareEvent::Matched(true));
        } else {
            assert(events[events.len() - 1] == events.last());
        }
    }
}

/// The stop of a running server is settled only by an answer that agrees.
pub proof fn law_stop_needs_consent(task: PrepareTask, events: Seq<PrepareEvent>)
    ensures
        stopping(prepare_after(task, events)) ==> exists|i: int|
            0 <= i < events.len() && yes_event(#[trigger] events[i]),
    decreases events.len(),
{
    if events.len() > 0 {
        let front = events.drop_last();
        law_stop_needs_consent(task, front);
        let before = prepare_after(task, front);
        if stopping(before) {
            let i = choose|i: int| 0 <= i < front.len() && yes_event(#[trigger] front[i]);
            assert(yes_event(events[i]));
        } else if stopping(prepare_after(task, events)) {
            assert(yes_event(events[events.len() - 1]));
        }
    }
}

/// A file that the user wants to be installed is installed before a binary counts as
/// prepared, whatever was found on the host.
pub proof fn law_override_is_installed(task: PrepareTask, events: Seq<PrepareEvent>)
    requires
        task.override_binary is Some,
    ensures
        !(prepare_after(task, events) is Probe),
        prepare_after(task, events) matches PrepareModel::Done { installed, .. } ==> installed,
    decreases events.len(),
{
    if events.len() > 0 {
        law_override_is_installed(task, events.drop_last());
    }
}

/// A comparison that does not find this client's binary.
pub open spec fn unmatched(event: PrepareEvent) -> bool {
    event is Lost || event == PrepareEvent::Matched(false)
}

/// Without such a file, candidates are compared in order, one that cannot be asked
/// counts as one that does not fit, and the first that fits is used as it is.
pub proof fn law_first_fitting_candidate_is_used(task: PrepareTask, events: Seq<PrepareEvent>)
    requires
        task.override_binary is None,
        0 < events.len() <= task.candidates@.len(),
        task.candidates@.len() <= usize::MAX,
        forall|i: int| 0 <= i < events.len() - 1 ==> unmatched(#[trigger] events[i]),
        events.last() == PrepareEvent::Matched(true),
    ensures
        prepare_after(task, events) == (PrepareModel::Done {
            candidate: Some((events.len() - 1) as usize),
            installed: false,
            stop: false,
        }),
{
    lemma_probing(task, events.drop_last());
}

proof fn lemma_probing(task: PrepareTask, events: Seq<PrepareEvent>)
    requires
        task.override_binary is None,
        events.len() <= task.candidates@.len(),
        forall|i: int| 0 <= i < events.len() ==> unmatched(#[trigger] events[i]),
    ensures
        prepare_after(task, events) == (PrepareModel::Probe { next: events.len() as int }),
    decreases events.len(),
{
    if events.len() > 0 {
        assert(unmatched(events[events.len() - 1]));
        lemma_probing(task, events.drop_last());
    }
}

/// Whether an event answers what a stage asks for.
pub open spec fn answers_request(stage: PrepareModel, event: PrepareEvent) -> bool {
    match stage {
        PrepareModel::Probe { .. } => event is Matched || event is Lost,
        PrepareModel::Exists => event is Output || event is Lost,
        PrepareModel::Status => event is Status,
        PrepareModel::Approve { .. } => event is Answer || event is Lost,
        PrepareModel::Confirm { .. } => event is Answer || event is Lost,
        PrepareModel::Install { .. } => event is Installed || event is Lost,
        PrepareModel::Verify { .. } => event is Matched || event is Lost,
        PrepareModel::PathCheck { .. } => event is Output || event is Lost,
        PrepareModel::Done { .. } | PrepareModel::Failed(_) => false,
    }
}

/// How many answers a stage is away from the end at most.
pub open spec fn answers_left(task: PrepareTask, stage: PrepareModel) -> int {
    match stage {
        PrepareModel::Probe { next } => 8 + task.candidates@.len() - next,
        PrepareModel::Exists => 7,
        PrepareModel::Status => 6,
        PrepareModel::Approve { .. } => 5,
        PrepareModel::Confirm { .. } => 4,
        PrepareModel::Install { .. } => 3,
        PrepareModel::Verify { .. } => 2,
        PrepareModel::PathCheck { .. } => 1,
        PrepareModel::Done { .. } | PrepareModel::Failed(_) => 0,
    }
}

/// Every answer brings the preparation nearer to its end, so it ends after finitely
/// many.
pub proof fn law_preparation_advances(task: PrepareTask, stage: PrepareModel, event: PrepareEvent)
    requires
        answers_request(stage, event),
        stage matches PrepareModel::Probe { next } ==> 0 <= next <= task.candidates@.len(),
    ensures
        ({
            let next = next_prepare(task, stage, event).1;
            &&& 0 <= answers_left(task, next) < answers_left(task, stage)
            &&& next matches PrepareModel::Probe { next } ==> 0 <= next <= task.candidates@.len()
        }),
{
}

/// Without a file that the user wants to be installed, the first thing is a comparison. With
/// one, it is the running server's status where a binary was found that can tell it, and the
/// search for one otherwise.
pub proof fn law_preparation_begins(task: PrepareTask)
    ensures
        task.override_binary is None ==> first_stage(task) == (PrepareModel::Probe { next: 0 }),
        task.override_binary is Some && task.candidates@.len() > 0 ==> first_stage(
            task,
        ) is Status,
        task.override_binary is Some && task.candidates@.len() == 0 ==> first_stage(
            task,
        ) is Exists,
{
}

/// Comparisons go through the candidates and end with the binary that is installed and
/// replaced. That one counts as prepared where it fits, and where it does not an installation
/// begins. That it could not be asked is passed on.
pub proof fn law_comparisons_end_with_the_managed_binary(task: PrepareTask, next: int)
    requires
        0 <= next <= task.candidates@.len(),
    ensures
        ({
            let stage = PrepareModel::Probe { next };
            let missed = next_prepare(task, stage, PrepareEvent::Matched(false));
            let lost = next_prepare(task, stage, PrepareEvent::Lost);
            let fits = next_prepare(task, stage, PrepareEvent::Matched(true)).1;
            &&& missed.0.len() == 0 && lost.0.len() == 0
            &&& next < task.candidates@.len() ==> missed.1 == (PrepareModel::Probe {
                next: next + 1,
            }) && lost.1 == missed.1
            &&& next == task.candidates@.len() ==> {
                &&& lost.1 == PrepareModel::Failed(report::FailureModel::Cause)
                &&& next > 0 ==> missed.1 is Status
                &&& next == 0 ==> missed.1 is Exists
                &&& fits == (PrepareModel::Done { candidate: None, installed: false, stop: false })
            }
        }),
{
}

/// Where a binary to replace is there, the running server's status is wanted. Where it is
/// not, or that could not be seen, there is no server to stop, and a user at a terminal is
/// asked about the installation.
pub proof fn law_missing_binary_needs_no_stop(task: PrepareTask, output: CommandOutput)
    ensures
        output.success ==> next_prepare(
            task,
            PrepareModel::Exists,
            PrepareEvent::Output(output),
        ).1 is Status,
        !output.success ==> next_prepare(
            task,
            PrepareModel::Exists,
            PrepareEvent::Output(output),
        ) == next_prepare(task, PrepareModel::Exists, PrepareEvent::Lost),
        task.terminal ==> (next_prepare(
            task,
            PrepareModel::Exists,
            PrepareEvent::Lost,
        ).1 matches PrepareModel::Confirm { stop, .. } && !stop),
        !task.terminal ==> next_prepare(task, PrepareModel::Exists, PrepareEvent::Lost).1 is Failed,
{
}

/// Under a server that does not run, or that hands over, an installation needs no stop. Under
/// any other running one a user at a terminal has to agree to its stop first, and under one
/// whose status is not known to going on. Without a terminal nothing is installed.
pub proof fn law_status_decides_about_the_stop(
    task: PrepareTask,
    status: Result<RemoteServerStatus, String>,
)
    ensures
        ({
            let next = next_prepare(task, PrepareModel::Status, PrepareEvent::Status(status)).1;
            let undisturbed = match status {
                Ok(RemoteServerStatus::NotRunning) => true,
                Ok(RemoteServerStatus::Running { live_handoff, .. }) => live_handoff
                    && task.live_handoff_enabled,
                Err(_) => false,
            };
            if !task.terminal {
                next is Failed
            } else if undisturbed {
                next matches PrepareModel::Confirm { stop, .. } && !stop
            } else {
                next matches PrepareModel::Approve { known, .. } && known == (status is Ok)
            }
        }),
{
    server::law_install_question_by_status(
        task.client,
        task.target@,
        server::status_or_cause(status),
        task.live_handoff_enabled,
        task.terminal,
    );
}

/// A user who agrees to an installation under a running server has that server stopped
/// exactly where its status is known, and is asked about the installation. Any other answer
/// gives up.
pub proof fn law_agreement_carries_the_stop(
    task: PrepareTask,
    known: bool,
    prompt: Seq<char>,
    answer: String,
)
    ensures
        ({
            let next = next_prepare(
                task,
                PrepareModel::Approve { known, prompt },
                PrepareEvent::Answer(answer),
            ).1;
            if !server::says_yes(answer@) {
                next matches PrepareModel::Failed(report::FailureModel::Own(error))
                    && error.kind is Interrupted
            } else if task.terminal {
                next matches PrepareModel::Confirm { stop, .. } && stop == known
            } else {
                next is Failed
            }
        }),
{
}

/// An installation that the user does not decline is carried through: the binary is
/// installed, compared with this client and looked for on the search path, and the agreement
/// to a stop is kept to the end. One that is declined is given up, and so is an installed
/// binary that does not fit.
pub proof fn law_installation_is_carried_through(
    task: PrepareTask,
    stop: bool,
    prompt: Seq<char>,
    answer: String,
    output: CommandOutput,
)
    ensures
        ({
            let answered = next_prepare(
                task,
                PrepareModel::Confirm { stop, prompt },
                PrepareEvent::Answer(answer),
            ).1;
            let installed = next_prepare(task, answered, PrepareEvent::Installed).1;
            let wrong = next_prepare(task, installed, PrepareEvent::Matched(false)).1;
            let fits = next_prepare(task, installed, PrepareEvent::Matched(true)).1;
            let done = next_prepare(task, fits, PrepareEvent::Output(output));
            if server::says_no(answer@) {
                answered matches PrepareModel::Failed(report::FailureModel::Own(error))
                    && error.kind is Interrupted
            } else {
                &&& answered == (PrepareModel::Install { stop })
                &&& installed == (PrepareModel::Verify { stop })
                &&& wrong matches PrepareModel::Failed(report::FailureModel::Own(error))
                    && error.kind is Other && text::ends_in(error.message, task.client.version@)
                &&& fits == (PrepareModel::PathCheck { stop })
                &&& done.1 == (PrepareModel::Done { candidate: None, installed: true, stop })
                &&& done.0.len() == (if host::path_warning_due(output) {
                    1int
                } else {
                    0
                })
            }
        }),
{
    let version = task.client.version@;
    text::law_begins_and_ends(
        version,
        version,
        "installed remote herdr at "@ + task.remote_herdr.shell_path@
            + ", but it did not report version "@,
    );
}

/// A question, an installation or a check behind it that fails is passed on as it failed. An
/// event that a stage did not ask for changes nothing.
pub proof fn law_failed_steps_are_passed_on(
    task: PrepareTask,
    stage: PrepareModel,
    event: PrepareEvent,
)
    ensures
        (stage is Approve || stage is Confirm || stage is Install || stage is Verify
            || stage is PathCheck) ==> next_prepare(task, stage, PrepareEvent::Lost) == (Seq::<
            Seq<char>,
        >::empty(), PrepareModel::Failed(report::FailureModel::Cause)),
        ({
            let foreign = match event {
                PrepareEvent::Lost => stage is Status || stage is Done || stage is Failed,
                PrepareEvent::Matched(_) => !(stage is Probe || stage is Verify),
                PrepareEvent::Output(_) => !(stage is Exists || stage is PathCheck),
                PrepareEvent::Status(_) => !(stage is Status),
                PrepareEvent::Answer(_) => !(stage is Approve || stage is Confirm),
                PrepareEvent::Installed => !(stage is Install),
            };
            foreign ==> next_prepare(task, stage, event) == (Seq::<Seq<char>>::empty(), stage)
        }),
{
}

/// A comparison asks the candidate of its number, and the binary that is installed and
/// replaced behind the last one. The status of the running server is asked of the first
/// candidate, and of that binary where there is none. An installed binary is compared under
/// its own name, and prompts are put as they stand.
pub proof fn law_requests_name_the_binary(task: PrepareTask, stage: PrepareModel)
    ensures
        match stage {
            PrepareModel::Probe { next } => {
                &&& 0 <= next < task.candidates@.len() ==> prepare_request_of(task, stage)
                    == PrepareRequestModel::Match(
                    host::match_script(task.candidates@[next].shell_path@),
                )
                &&& next == task.candidates@.len() ==> prepare_request_of(task, stage)
                    == PrepareRequestModel::Match(
                    host::match_script(task.remote_herdr.shell_path@),
                )
            },
            PrepareModel::Exists => prepare_request_of(task, stage) == PrepareRequestModel::Script(
                "test -x "@ + task.remote_herdr.shell_path@,
            ),
            PrepareModel::Status => {
                &&& task.candidates@.len() > 0 ==> prepare_request_of(task, stage)
                    == PrepareRequestModel::Status(
                    task.candidates@[0].shell_path@ + " status server --json"@,
                )
                &&& task.candidates@.len() == 0 ==> prepare_request_of(task, stage)
                    == PrepareRequestModel::Status(
                    task.remote_herdr.shell_path@ + " status server --json"@,
                )
            },
            PrepareModel::Approve { prompt, .. } => prepare_request_of(task, stage)
                == PrepareRequestModel::Ask(prompt),
            PrepareModel::Confirm { prompt, .. } => prepare_request_of(task, stage)
                == PrepareRequestModel::Ask(prompt),
            PrepareModel::Install { .. } => prepare_request_of(task, stage) is Install,
            PrepareModel::Verify { .. } => prepare_request_of(task, stage)
                == PrepareRequestModel::Match(host::match_script(task.remote_herdr.shell_path@)),
            PrepareModel::PathCheck { .. } => prepare_request_of(task, stage)
                == PrepareRequestModel::UserShell("command -v herdr"@),
            PrepareModel::Done { .. } | PrepareModel::Failed(_) => prepare_request_of(
                task,
                stage,
            ) is Nothing,
        },
{
}

/// What a user is asked about the installation names the source that will be installed: the
/// file that the user wants, or the released one for the platform of the host.
pub proof fn law_user_agrees_to_what_is_installed(task: PrepareTask)
    requires
        task.terminal,
    ensures
        next_prepare(task, PrepareModel::Exists, PrepareEvent::Lost).1 matches PrepareModel::Confirm {
            prompt,
            ..
        } && {
            &&& text::mentions(prompt, task.remote_herdr.shell_path@)
            &&& text::mentions(
                prompt,
                install::source_description(
                    task.client,
                    task.remote_herdr.platform.deep_view(),
                    task.override_binary.deep_view(),
                    false,
                ),
            )
        },
{
    server::law_install_approval_names_what_is_installed(
        task.client,
        task.target@,
        task.remote_herdr.deep_view(),
        install::source_description(
            task.client,
            task.remote_herdr.platform.deep_view(),
            task.override_binary.deep_view(),
            false,
        ),
    );
}

/// What the user reads on the way to an installation is what the question about the running
/// server tells, and then what the question about the installation tells.
pub proof fn law_user_reads_both_questions(
    task: PrepareTask,
    status: Result<RemoteServerStatus, String>,
    known: bool,
    prompt: Seq<char>,
    answer: String,
)
    requires
        server::says_yes(answer@),
    ensures
        ({
            let approval = server::install_approval(
                task.client,
                task.target@,
                task.remote_herdr.deep_view(),
                install::source_description(
                    task.client,
                    task.remote_herdr.platform.deep_view(),
                    task.override_binary.deep_view(),
                    false,
                ),
                task.terminal,
            ).0;
            let question = server::install_question(
                task.client,
                task.target@,
                match status {
                    Ok(status) => Ok(status),
                    Err(cause) => Err(cause@),
                },
                task.live_handoff_enabled,
                task.terminal,
            );
            let asked = next_prepare(task, PrepareModel::Status, PrepareEvent::Status(status));
            &&& next_prepare(task, PrepareModel::Exists, PrepareEvent::Lost).0 == approval
            &&& next_prepare(
                task,
                PrepareModel::Approve { known, prompt },
                PrepareEvent::Answer(answer),
            ).0 == approval
            &&& question.1 is Settled ==> asked.0 == question.0 + approval
            &&& question.1 is Ask ==> asked.0 == question.0 && asked.1
                == (PrepareModel::Approve { known: status is Ok, prompt: question.1->Ask_0 })
            &&& question.1 is Refuse ==> asked == (
                question.0,
                PrepareModel::Failed(report::FailureModel::Own(question.1->Refuse_0)),
            )
        }),
{
}

} // verus!
