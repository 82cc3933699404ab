//! Finding out what is on a remote host, step by step: its platform, the file that the
//! user wants to be installed there, and the binaries that it has.
use crate::host::ClientBuild;
use crate::host::RemoteHerdr;
use crate::host::UNAME_SCRIPT;
use crate::host::WHICH_COMMAND;
use crate::host::detect_remote_platform;
use crate::host::known_remote_binary_candidate_script;
use crate::host::remote_binary_candidates;
use crate::host::remote_binary_on_path_any;
use crate::host;
use crate::install::override_inspected;
use crate::install::override_requested;
use crate::install;
use crate::manifest::REMOTE_BINARY_ENV_VAR;
use crate::report::CommandOutput;
use crate::report::Failure;
use crate::report;
use crate::text;
use vstd::prelude::*;
use vstd::string::*;

verus! {

/// How far the discovery has come.
#[derive(Debug)]
pub enum DiscoveryStage {
    /// The platform of the host is wanted.
    Platform,
    /// The variable that names a file to install is wanted.
    Override { remote_herdr: RemoteHerdr },
    /// Whether that file is one is wanted.
    Inspect { remote_herdr: RemoteHerdr, path: String },
    /// The binary that the shell of the host resolves is wanted.
    OnPath { remote_herdr: RemoteHerdr, override_binary: Option<String> },
    /// The binaries at the usual places are wanted.
    Search {
        remote_herdr: RemoteHerdr,
        override_binary: Option<String>,
        on_path: Option<RemoteHerdr>,
    },
    /// All is known.
    Found {
        remote_herdr: RemoteHerdr,
        override_binary: Option<String>,
        candidates: Vec<RemoteHerdr>,
    },
    /// The host cannot be used.
    Failed(Failure),
}

/// A stage as its text.
#[verifier::ext_equal]
pub enum DiscoveryModel {
    Platform,
    Override { remote_herdr: host::HerdrModel },
    Inspect { remote_herdr: host::HerdrModel, path: Seq<char> },
    OnPath { remote_herdr: host::HerdrModel, override_binary: Option<Seq<char>> },
    Search {
        remote_herdr: host::HerdrModel,
        override_binary: Option<Seq<char>>,
        on_path: Option<host::HerdrModel>,
    },
    Found {
        remote_herdr: host::HerdrModel,
        override_binary: Option<Seq<char>>,
        candidates: Seq<host::HerdrModel>,
    },
    Failed(report::FailureModel),
}

impl DeepView for DiscoveryStage {
    type V = DiscoveryModel;

    open spec fn deep_view(&self) -> DiscoveryModel {
        match self {
            DiscoveryStage::Platform => DiscoveryModel::Platform,
            DiscoveryStage::Override { remote_herdr } => DiscoveryModel::Override {
                remote_herdr: remote_herdr.deep_view(),
            },
            DiscoveryStage::Inspect { remote_herdr, path } => DiscoveryModel::Inspect {
                remote_herdr: remote_herdr.deep_view(),
                path: path@,
            },
            DiscoveryStage::OnPath { remote_herdr, override_binary } => DiscoveryModel::OnPath {
                remote_herdr: remote_herdr.deep_view(),
                override_binary: override_binary.deep_view(),
            },
            DiscoveryStage::Search { remote_herdr, override_binary, on_path } =>
            DiscoveryModel::Search {
                remote_herdr: remote_herdr.deep_view(),
                override_binary: override_binary.deep_view(),
                on_path: on_path.deep_view(),
            },
            DiscoveryStage::Found { remote_herdr, override_binary, candidates } =>
            DiscoveryModel::Found {
                remote_herdr: remote_herdr.deep_view(),
                override_binary: override_binary.deep_view(),
                candidates: candidates.deep_view(),
            },
            DiscoveryStage::Failed(failure) => DiscoveryModel::Failed(failure.deep_view()),
        }
    }
}

/// What a stage asks for.
#[derive(Debug, Clone, PartialEq, Eq)]
pub enum DiscoveryRequest {
    /// The output of this script.
    Script(String),
    /// The output of this command in the user's shell.
    UserShell(String),
    /// The value of this variable.
    Variable(String),
    /// Whether there is a file at this path.
    IsFile(String),
    /// Nothing more.
    Nothing,
}

/// A request as its text.
pub enum DiscoveryRequestModel {
    Script(Seq<char>),
    UserShell(Seq<char>),
    Variable(Seq<char>),
    IsFile(Seq<char>),
    Nothing,
}

impl DeepView for DiscoveryRequest {
    type V = DiscoveryRequestModel;

    open spec fn deep_view(&self) -> DiscoveryRequestModel {
        match self {
            DiscoveryRequest::Script(script) => DiscoveryRequestModel::Script(script@),
            DiscoveryRequest::UserShell(command) => DiscoveryRequestModel::UserShell(command@),
            DiscoveryRequest::Variable(name) => DiscoveryRequestModel::Variable(name@),
            DiscoveryRequest::IsFile(path) => DiscoveryRequestModel::IsFile(path@),
            DiscoveryRequest::Nothing => DiscoveryRequestModel::Nothing,
        }
    }
}

/// What came of a request.
#[derive(Debug, PartialEq, Eq)]
pub enum DiscoveryEvent {
    /// It failed.
    Lost,
    /// The output of a script or a command.
    Output(CommandOutput),
    /// The value of a variable, where it is set.
    Variable(Option<String>),
    /// Whether there is a file, or why it could not be looked at.
    IsFile(Result<bool, String>),
}

/// What a stage asks for.
pub open spec fn discovery_request_of(
    client: ClientBuild,
    stage: DiscoveryModel,
) -> DiscoveryRequestModel {
    match stage {
        DiscoveryModel::Platform => DiscoveryRequestModel::Script(UNAME_SCRIPT@),
        DiscoveryModel::Override { .. } => DiscoveryRequestModel::Variable(REMOTE_BINARY_ENV_VAR@),
        DiscoveryModel::Inspect { path, .. } => DiscoveryRequestModel::IsFile(path),
        DiscoveryModel::OnPath { .. } => DiscoveryRequestModel::UserShell(WHICH_COMMAND@),
        DiscoveryModel::Search { remote_herdr, .. } => DiscoveryRequestModel::Script(
            host::search_script(remote_herdr.platform.os, client.version@),
        ),
        DiscoveryModel::Found { .. } | DiscoveryModel::Failed(_) => DiscoveryRequestModel::Nothing,
    }
}

/// What a stage asks for.
pub fn discovery_request(client: &ClientBuild, stage: &DiscoveryStage) -> (res: DiscoveryRequest)
    ensures
        res.deep_view() == discovery_request_of(*client, stage.deep_view()),
{
    match stage {
        DiscoveryStage::Platform => DiscoveryRequest::Script(UNAME_SCRIPT.to_string()),
        DiscoveryStage::Override { .. } => DiscoveryRequest::Variable(
            REMOTE_BINARY_ENV_VAR.to_string(),
        ),
        DiscoveryStage::Inspect { path, .. } => DiscoveryRequest::IsFile(path.clone()),
        DiscoveryStage::OnPath { .. } => DiscoveryRequest::UserShell(WHICH_COMMAND.to_string()),
        DiscoveryStage::Search { remote_herdr, .. } => DiscoveryRequest::Script(
            known_remote_binary_candidate_script(client, &remote_herdr.platform),
        ),
        DiscoveryStage::Found { .. } => DiscoveryRequest::Nothing,
        DiscoveryStage::Failed(_) => DiscoveryRequest::Nothing,
    }
}

/// The stage of an error of this library.
pub open spec fn discovery_failed(error: report::ErrorModel) -> DiscoveryModel {
    DiscoveryModel::Failed(report::FailureModel::Own(error))
}

/// Where an event leads. An event that a stage did not ask for leaves it.
pub open spec fn next_discovery(stage: DiscoveryModel, event: DiscoveryEvent) -> DiscoveryModel {
    let lost = DiscoveryModel::Failed(report::FailureModel::Cause);
    match (stage, event) {
        (DiscoveryModel::Platform, DiscoveryEvent::Output(output)) => match host::platform_detected(
            output,
        ) {
            Ok(platform) => DiscoveryModel::Override {
                remote_herdr: host::managed_herdr(platform),
            },
            Err(error) => discovery_failed(error),
        },
        (DiscoveryModel::Platform, DiscoveryEvent::Lost) => lost,
        (DiscoveryModel::Override { remote_herdr }, DiscoveryEvent::Variable(value)) =>
        match install::override_wanted(value.deep_view()) {
            Ok(Some(path)) => DiscoveryModel::Inspect { remote_herdr, path },
            Ok(None) => DiscoveryModel::OnPath { remote_herdr, override_binary: None },
            Err(error) => discovery_failed(error),
        },
        (DiscoveryModel::Inspect { remote_herdr, path }, DiscoveryEvent::IsFile(is_file)) =>
        match install::override_path(
            path,
            match is_file {
                Ok(file) => Ok(file),
                Err(cause) => Err(cause@),
            },
        ) {
            Ok(path) => DiscoveryModel::OnPath { remote_herdr, override_binary: Some(path) },
            Err(error) => discovery_failed(error),
        },
        (DiscoveryModel::OnPath { remote_herdr, override_binary }, DiscoveryEvent::Output(
            output,
        )) => DiscoveryModel::Search {
            remote_herdr,
            override_binary,
            on_path: host::herdr_on_path(remote_herdr, output),
        },
        (DiscoveryModel::OnPath { .. }, DiscoveryEvent::Lost) => lost,
        (DiscoveryModel::Search { remote_herdr, override_binary, on_path }, DiscoveryEvent::Output(
            output,
        )) => match host::candidates_found(remote_herdr, on_path, output) {
            Ok(candidates) => DiscoveryModel::Found { remote_herdr, override_binary, candidates },
            Err(error) => discovery_failed(error),
        },
        (DiscoveryModel::Search { .. }, DiscoveryEvent::Lost) => lost,
        _ => stage,
    }
}

/// Where an event leads. An event that a stage did not ask for leaves it.
pub fn discover_remote_herdr(stage: DiscoveryStage, event: DiscoveryEvent) -> (res: DiscoveryStage)
    ensures
        res.deep_view() == next_discovery(stage.deep_view(), event),
{
    match (stage, event) {
        (DiscoveryStage::Platform, DiscoveryEvent::Output(output)) => {
            match detect_remote_platform(&output) {
                Ok(platform) => DiscoveryStage::Override {
                    remote_herdr: RemoteHerdr::for_platform(platform),
                },
                Err(error) => DiscoveryStage::Failed(Failure::Own(error)),
            }
        },
        (DiscoveryStage::Platform, DiscoveryEvent::Lost) => DiscoveryStage::Failed(Failure::Cause),
        (DiscoveryStage::Override { remote_herdr }, DiscoveryEvent::Variable(value)) => {
            match override_requested(value) {
                Ok(Some(path)) => DiscoveryStage::Inspect { remote_herdr, path },
                Ok(None) => DiscoveryStage::OnPath { remote_herdr, override_binary: None },
                Err(error) => DiscoveryStage::Failed(Failure::Own(error)),
            }
        },
        (DiscoveryStage::Inspect { remote_herdr, path }, DiscoveryEvent::IsFile(is_file)) => {
            match override_inspected(path, is_file) {
                Ok(path) => DiscoveryStage::OnPath { remote_herdr, override_binary: Some(path) },
                Err(error) => DiscoveryStage::Failed(Failure::Own(error)),
            }
        },
        (DiscoveryStage::OnPath { remote_herdr, override_binary }, DiscoveryEvent::Output(
            output,
        )) => {
            let on_path = remote_binary_on_path_any(&remote_herdr, &output);
            DiscoveryStage::Search { remote_herdr, override_binary, on_path }
        },
        (DiscoveryStage::OnPath { .. }, DiscoveryEvent::Lost) => DiscoveryStage::Failed(
            Failure::Cause,
        ),
        (DiscoveryStage::Search { remote_herdr, override_binary, on_path }, DiscoveryEvent::Output(
            output,
        )) => {
            match remote_binary_candidates(&remote_herdr, on_path, &output) {
                Ok(candidates) => DiscoveryStage::Found {
                    remote_herdr,
                    override_binary,
                    candidates,
                },
                Err(error) => DiscoveryStage::Failed(Failure::Own(error)),
            }
        },
        (DiscoveryStage::Search { .. }, DiscoveryEvent::Lost) => DiscoveryStage::Failed(
            Failure::Cause,
        ),
        (stage, _) => stage,
    }
}

/// The stage that a series of events leads to from the first one.
pub open spec fn discovered_after(events: Seq<DiscoveryEvent>) -> DiscoveryModel
    decreases events.len(),
{
    if events.len() == 0 {
        DiscoveryModel::Platform
    } else {
        next_discovery(discovered_after(events.drop_last()), events.last())
    }
}

/// The binary that will be installed or replaced at a stage, once the platform is known.
pub open spec fn managed_at(stage: DiscoveryModel) -> Option<host::HerdrModel> {
    match stage {
        DiscoveryModel::Override { remote_herdr } => Some(remote_herdr),
        DiscoveryModel::Inspect { remote_herdr, .. } => Some(remote_herdr),
        DiscoveryModel::OnPath { remote_herdr, .. } => Some(remote_herdr),
        DiscoveryModel::Search { remote_herdr, .. } => Some(remote_herdr),
        DiscoveryModel::Found { remote_herdr, .. } => Some(remote_herdr),
        _ => None,
    }
}

/// Whatever a host answers, the binary that would be installed there is the one below
/// the home directory, and the binaries that were found differ in their names.
pub proof fn law_discovery_finds_distinct_binaries(events: Seq<DiscoveryEvent>)
    ensures
        managed_at(discovered_after(events)) matches Some(herdr) ==> herdr == host::managed_herdr(
            herdr.platform,
        ),
        discovered_after(events) matches DiscoveryModel::Found { candidates, .. }
            ==> host::distinct_names(candidates),
    decreases events.len(),
{
    if events.len() > 0 {
        let front = events.drop_last();
        law_discovery_finds_distinct_binaries(front);
        let before = discovered_after(front);
        if let DiscoveryModel::Search { remote_herdr, on_path, .. } = before {
            if let DiscoveryEvent::Output(output) = events.last() {
                let first = match on_path {
                    Some(herdr) => seq![herdr],
                    None => Seq::empty(),
                };
                host::law_candidates_are_distinct(
                    first,
                    host::herdrs_at(
                        remote_herdr,
                        text::lines_of(text::utf8_lossy(output.stdout@)),
                    ),
                );
            }
        }
    }
}

/// Whether an event answers what a stage asks for.
pub open spec fn answers_request(stage: DiscoveryModel, event: DiscoveryEvent) -> bool {
    match stage {
        DiscoveryModel::Platform => event is Output || event is Lost,
        DiscoveryModel::Override { .. } => event is Variable,
        DiscoveryModel::Inspect { .. } => event is IsFile,
        DiscoveryModel::OnPath { .. } => event is Output || event is Lost,
        DiscoveryModel::Search { .. } => event is Output || event is Lost,
        DiscoveryModel::Found { .. } | DiscoveryModel::Failed(_) => false,
    }
}

/// How many answers a stage is away from the end at most.
pub open spec fn answers_left(stage: DiscoveryModel) -> int {
    match stage {
        DiscoveryModel::Platform => 5,
        DiscoveryModel::Override { .. } => 4,
        DiscoveryModel::Inspect { .. } => 3,
        DiscoveryModel::OnPath { .. } => 2,
        DiscoveryModel::Search { .. } => 1,
        DiscoveryModel::Found { .. } | DiscoveryModel::Failed(_) => 0,
    }
}

/// Every answer brings the discovery nearer to its end.
pub proof fn law_discovery_advances(stage: DiscoveryModel, event: DiscoveryEvent)
    requires
        answers_request(stage, event),
    ensures
        0 <= answers_left(next_discovery(stage, event)) < answers_left(stage),
{
}

/// A host that answers every question is found out about in full: its platform by the first
/// answer, the file that the user wants by the variable and the look at it, the binary on its
/// search path by the next answer, and the other binaries by the last. What was found before
/// an answer is kept.
pub proof fn law_discovery_gathers_the_answers(
    uname: CommandOutput,
    value: Option<String>,
    which: CommandOutput,
    search: CommandOutput,
    platform: host::PlatformModel,
)
    requires
        host::platform_detected(uname) == Ok::<host::PlatformModel, report::ErrorModel>(platform),
        value is Some ==> value->Some_0@.len() > 0,
        search.success,
    ensures
        ({
            let told = next_discovery(DiscoveryModel::Platform, DiscoveryEvent::Output(uname));
            let wanted = next_discovery(told, DiscoveryEvent::Variable(value));
            let seen = match value {
                Some(_) => next_discovery(wanted, DiscoveryEvent::IsFile(Ok(true))),
                None => wanted,
            };
            let resolved = next_discovery(seen, DiscoveryEvent::Output(which));
            let herdr = host::managed_herdr(platform);
            &&& value matches Some(path) ==> (wanted matches DiscoveryModel::Inspect {
                path: asked,
                ..
            } && asked == path@)
            &&& next_discovery(resolved, DiscoveryEvent::Output(search)) == (
            DiscoveryModel::Found {
                remote_herdr: herdr,
                override_binary: value.deep_view(),
                candidates: host::candidates_of(
                    herdr,
                    host::herdr_on_path(herdr, which),
                    text::lines_of(text::utf8_lossy(search.stdout@)),
                ),
            })
        }),
{
}

/// A platform that is not supported, a variable that is empty, a path that is not a file and
/// a search that failed end the discovery with an error of their own. A request that fails
/// ends it as it failed, and an event that a stage did not ask for changes nothing.
pub proof fn law_discovery_ends_with_the_first_error(
    stage: DiscoveryModel,
    event: DiscoveryEvent,
    output: CommandOutput,
    empty: String,
    cause: String,
)
    requires
        empty@.len() == 0,
    ensures
        stage is Platform && host::platform_detected(output) is Err ==> next_discovery(
            stage,
            DiscoveryEvent::Output(output),
        ) == DiscoveryModel::Failed(
            report::FailureModel::Own(host::platform_detected(output)->Err_0),
        ),
        stage is Override ==> (next_discovery(
            stage,
            DiscoveryEvent::Variable(Some(empty)),
        ) matches DiscoveryModel::Failed(report::FailureModel::Own(error)) && error.kind
            == report::ErrorKind::InvalidInput),
        stage is Inspect ==> (next_discovery(
            stage,
            DiscoveryEvent::IsFile(Ok(false)),
        ) matches DiscoveryModel::Failed(report::FailureModel::Own(error)) && error.kind
            == report::ErrorKind::InvalidInput),
        stage is Inspect ==> (next_discovery(
            stage,
            DiscoveryEvent::IsFile(Err(cause)),
        ) matches DiscoveryModel::Failed(report::FailureModel::Own(error)) && error.kind
            == report::ErrorKind::OfCause),
        stage is Search && !output.success ==> (next_discovery(
            stage,
            DiscoveryEvent::Output(output),
        ) matches DiscoveryModel::Failed(report::FailureModel::Own(error)) && error.kind
            == report::ErrorKind::Other),
        (stage is Platform || stage is OnPath || stage is Search) ==> next_discovery(
            stage,
            DiscoveryEvent::Lost,
        ) == DiscoveryModel::Failed(report::FailureModel::Cause),
        ({
            let foreign = match event {
                DiscoveryEvent::Variable(_) => !(stage is Override),
                DiscoveryEvent::IsFile(_) => !(stage is Inspect),
                _ => !(stage is Platform || stage is OnPath || stage is Search),
            };
            foreign ==> next_discovery(stage, event) == stage
        }),
{
}

/// Each stage asks for what it needs: the kernel and the machine, the user's variable, a look
/// at the path that it names, what a shell of the host resolves, and a search of the places
/// of the host's system for this client's version.
pub proof fn law_discovery_requests(client: ClientBuild, stage: DiscoveryModel)
    ensures
        match stage {
            DiscoveryModel::Platform => discovery_request_of(client, stage)
                == DiscoveryRequestModel::Script("uname -s\nuname -m\n"@),
            DiscoveryModel::Override { .. } => discovery_request_of(client, stage)
                == DiscoveryRequestModel::Variable("HERDR_REMOTE_BINARY"@),
            DiscoveryModel::Inspect { path, .. } => discovery_request_of(client, stage)
                == DiscoveryRequestModel::IsFile(path),
            DiscoveryModel::OnPath { .. } => discovery_request_of(client, stage)
                == DiscoveryRequestModel::UserShell("command -v herdr"@),
            DiscoveryModel::Search { remote_herdr, .. } => discovery_request_of(client, stage)
                == DiscoveryRequestModel::Script(
                host::search_script(remote_herdr.platform.os, client.version@),
            ),
            DiscoveryModel::Found { .. } | DiscoveryModel::Failed(_) => discovery_request_of(
                client,
                stage,
            ) is Nothing,
        },
{
}

} // verus!
