use herdr_windows::host::{ClientBuild, RemoteHerdr, RemotePlatform};
use herdr_windows::readiness::{
    ensure_remote_server_ready, server_request, ServerEvent, ServerRequest, ServerStage,
    ServerTask,
};
use herdr_windows::report::{CommandOutput, ErrorKind, Failure, RemoteError};
use herdr_windows::server::{
    answer_install_with_running_server, answer_remote_install, answer_server_stop,
    confirm_remote_install, confirm_remote_install_with_running_server,
    confirm_remote_server_stop, parse_remote_server_status_json,
    remote_install_running_server_plan, remote_server_restart_reason, server_status_command,
    server_status_text, version_label, RemoteInstallRunningServerPlan,
    RemoteServerCapabilitiesJson, RemoteServerRestartReason, RemoteServerStatus,
    RemoteServerStatusJson, Verdict,
};

const CURRENT_PROTOCOL: u32 = 8;

fn client() -> ClientBuild {
    ClientBuild {
        version: "0.7.1".to_string(),
        channel: "stable".to_string(),
        preview: false,
        build_id: None,
        protocol: CURRENT_PROTOCOL,
    }
}

fn current_version() -> String {
    client().version
}

fn herdr() -> RemoteHerdr {
    RemoteHerdr::for_platform(RemotePlatform {
        os: "linux",
        arch: "x86_64",
    })
}

fn output(success: bool, stdout: &[u8], stderr: &[u8]) -> CommandOutput {
    CommandOutput {
        success,
        status: "exit code: 1".to_string(),
        stdout: stdout.to_vec(),
        stderr: stderr.to_vec(),
    }
}

fn reason_of(
    version: Option<&str>,
    protocol: Option<u32>,
    detached_server_daemon: bool,
    remote_binary_changed: bool,
) -> Option<RemoteServerRestartReason> {
    remote_server_restart_reason(
        &client(),
        version,
        protocol,
        detached_server_daemon,
        remote_binary_changed,
    )
}

fn plan_of(
    version: Option<&str>,
    protocol: Option<u32>,
    detached_server_daemon: bool,
    remote_binary_changed: bool,
    live_handoff: bool,
    live_handoff_enabled: bool,
) -> RemoteInstallRunningServerPlan {
    remote_install_running_server_plan(
        &client(),
        version,
        protocol,
        detached_server_daemon,
        remote_binary_changed,
        live_handoff,
        live_handoff_enabled,
    )
}

/// The report that a JSON text holds, read member by member.
fn report_in(text: &str) -> Result<RemoteServerStatusJson, String> {
    let value: serde_json::Value = serde_json::from_str(text).map_err(|err| err.to_string())?;
    let flag = |value: &serde_json::Value, key: &str| value[key].as_bool().unwrap_or(false);
    Ok(RemoteServerStatusJson {
        running: value["running"].as_bool().ok_or("missing field `running`")?,
        version: value["version"].as_str().map(str::to_string),
        protocol: value["protocol"].as_u64().map(|protocol| protocol as u32),
        capabilities: value
            .get("capabilities")
            .map(|capabilities| RemoteServerCapabilitiesJson {
                live_handoff: flag(capabilities, "live_handoff"),
                detached_server_daemon: flag(capabilities, "detached_server_daemon"),
            }),
    })
}

fn status_in(text: &str) -> Result<RemoteServerStatus, RemoteError> {
    parse_remote_server_status_json(text, report_in(text))
}

#[test]
fn parse_remote_server_status_json_reads_running_server() {
    assert_eq!(
        status_in(
            r#"{"status":"running","running":true,"version":"0.6.0","protocol":8,"capabilities":{"live_handoff":true,"detached_server_daemon":true}}"#
        )
        .unwrap(),
        RemoteServerStatus::Running {
            version: Some("0.6.0".into()),
            protocol: Some(8),
            live_handoff: true,
            detached_server_daemon: true
        }
    );
}

#[test]
fn parse_remote_server_status_json_treats_missing_capability_as_old_server() {
    assert_eq!(
        status_in(r#"{"status":"running","running":true,"version":"0.6.0","protocol":8}"#).unwrap(),
        RemoteServerStatus::Running {
            version: Some("0.6.0".into()),
            protocol: Some(8),
            live_handoff: false,
            detached_server_daemon: false
        }
    );
}

#[test]
fn parse_remote_server_status_json_reads_stopped_server() {
    assert_eq!(
        status_in(r#"{"status":"not_running","running":false,"version":null,"protocol":null}"#)
            .unwrap(),
        RemoteServerStatus::NotRunning
    );
}

#[test]
fn unreadable_status_is_quoted_in_the_error() {
    let error =
        parse_remote_server_status_json("huh", Err("expected value".to_string())).unwrap_err();
    assert_eq!(error.kind, ErrorKind::Other);
    assert_eq!(
        error.message,
        "could not parse remote server status JSON from `huh`: expected value"
    );
}

#[test]
fn remote_server_restart_reason_requires_stop_for_protocol_mismatch() {
    assert_eq!(
        reason_of(Some(&current_version()), Some(0), true, false),
        Some(RemoteServerRestartReason::ProtocolMismatch)
    );
}

#[test]
fn remote_server_restart_reason_allows_unchanged_compatible_server() {
    assert_eq!(
        reason_of(
            Some(&current_version()),
            Some(CURRENT_PROTOCOL),
            true,
            false
        ),
        None
    );
}

#[test]
fn remote_server_restart_reason_requires_restart_for_old_daemon() {
    assert_eq!(
        reason_of(
            Some(&current_version()),
            Some(CURRENT_PROTOCOL),
            false,
            false
        ),
        Some(RemoteServerRestartReason::DaemonDetachMissing)
    );
}

#[test]
fn remote_server_restart_reason_requires_restart_after_helper_update() {
    assert_eq!(
        reason_of(
            Some(&current_version()),
            Some(CURRENT_PROTOCOL),
            true,
            true
        ),
        Some(RemoteServerRestartReason::BinaryUpdated)
    );
}

#[test]
fn remote_server_restart_reason_offers_restart_for_version_mismatch() {
    assert_eq!(
        reason_of(Some("0.0.0"), Some(CURRENT_PROTOCOL), true, false),
        Some(RemoteServerRestartReason::VersionMismatch)
    );
    assert_eq!(
        reason_of(None, Some(CURRENT_PROTOCOL), true, false),
        Some(RemoteServerRestartReason::VersionMismatch)
    );
}

#[test]
fn remote_server_restart_reason_allows_current_server() {
    assert_eq!(
        reason_of(
            Some(&current_version()),
            Some(CURRENT_PROTOCOL),
            true,
            false
        ),
        None
    );
}

#[test]
fn remote_install_plan_keeps_compatible_running_server() {
    assert_eq!(
        plan_of(
            Some(&current_version()),
            Some(CURRENT_PROTOCOL),
            true,
            false,
            false,
            false
        ),
        RemoteInstallRunningServerPlan::KeepRunning
    );
}

#[test]
fn remote_install_plan_requires_stop_for_old_daemon() {
    assert_eq!(
        plan_of(
            Some(&current_version()),
            Some(CURRENT_PROTOCOL),
            false,
            true,
            false,
            false
        ),
        RemoteInstallRunningServerPlan::StopRequired(
            RemoteServerRestartReason::DaemonDetachMissing
        )
    );
}

#[test]
fn remote_install_plan_requires_stop_after_helper_update() {
    assert_eq!(
        plan_of(
            Some(&current_version()),
            Some(CURRENT_PROTOCOL),
            true,
            true,
            false,
            false
        ),
        RemoteInstallRunningServerPlan::StopRequired(RemoteServerRestartReason::BinaryUpdated)
    );
}

#[test]
fn remote_install_plan_requires_stop_for_incompatible_running_server() {
    assert_eq!(
        plan_of(
            Some("0.0.0"),
            Some(CURRENT_PROTOCOL),
            true,
            true,
            false,
            false
        ),
        RemoteInstallRunningServerPlan::StopRequired(RemoteServerRestartReason::VersionMismatch)
    );
}

#[test]
fn remote_install_plan_uses_live_handoff_for_incompatible_running_server() {
    assert_eq!(
        plan_of(
            Some("0.0.0"),
            Some(CURRENT_PROTOCOL),
            true,
            true,
            true,
            true
        ),
        RemoteInstallRunningServerPlan::LiveHandoff
    );
}

fn running(version: Option<&str>, protocol: u32, live_handoff: bool) -> RemoteServerStatus {
    RemoteServerStatus::Running {
        version: version.map(str::to_string),
        protocol: Some(protocol),
        live_handoff,
        detached_server_daemon: true,
    }
}

fn refused(verdict: Verdict) -> String {
    match verdict {
        Verdict::Refuse(error) => {
            assert_eq!(error.kind, ErrorKind::Other);
            error.message
        }
        other => panic!("{other:?}"),
    }
}

#[test]
fn installs_under_a_running_server_are_announced() {
    let ask = |status, handoff, terminal| {
        confirm_remote_install_with_running_server(&client(), "dev", &status, handoff, terminal)
    };
    assert_eq!(
        ask(Ok(RemoteServerStatus::NotRunning), true, true),
        (vec![], Verdict::Settled(false))
    );
    assert_eq!(
        ask(Ok(running(Some("0.6.0"), 8, false)), true, true),
        (
            vec![
                "remote herdr server on dev is currently running:".to_string(),
                "  server: v0.6.0".to_string(),
                "To complete the remote update, Herdr must stop the running remote server after installing.".to_string(),
                "This stops active remote pane processes, including shells, dev servers, and tests.".to_string(),
                String::new(),
            ],
            Verdict::Ask("Install 0.7.1 and stop the remote server now? [y/N] ".to_string())
        )
    );
    assert_eq!(
        ask(Ok(running(None, 8, true)), true, true),
        (
            vec![
                "remote herdr server on dev is currently running:".to_string(),
                "  server: vunknown".to_string(),
                "Herdr will install 0.7.1 and hand off live pane processes to the prepared server.".to_string(),
            ],
            Verdict::Settled(false)
        )
    );
    assert_eq!(
        ask(Ok(running(None, 8, true)), true, false),
        (vec![], Verdict::Settled(false))
    );
    assert_eq!(
        refused(ask(Ok(running(Some("0.6.0"), 8, true)), false, false).1),
        "remote herdr server on dev is running v0.6.0; run from an interactive terminal to approve stopping it for the update"
    );
    assert_eq!(
        ask(Err("no json".to_string()), false, true),
        (
            vec!["could not inspect the running remote herdr server on dev before installing: no json".to_string()],
            Verdict::Ask("continue installing the remote herdr binary? [y/N] ".to_string())
        )
    );
    assert_eq!(
        refused(ask(Err("no json".to_string()), false, false).1),
        "could not inspect the running remote herdr server on dev before installing: no json; run from an interactive terminal to approve updating the remote binary"
    );
}

#[test]
fn only_yes_agrees_to_an_install_under_a_running_server() {
    assert_eq!(answer_install_with_running_server(true, " YES\r\n"), Ok(true));
    assert_eq!(answer_install_with_running_server(false, "y\n"), Ok(false));
    for answer in ["", "n\n", "yess", "ok"] {
        let error = answer_install_with_running_server(true, answer).unwrap_err();
        assert_eq!(error.kind, ErrorKind::Interrupted);
        assert_eq!(error.message, "remote herdr install cancelled");
    }
}

#[test]
fn stops_are_announced_by_their_reason() {
    let ask = |reason, terminal| {
        confirm_remote_server_stop(&client(), "dev", Some("0.6.0"), reason, terminal)
    };
    let lines = [
        (
            RemoteServerRestartReason::ProtocolMismatch,
            "the remote server must stop before this client can attach.",
            "stop the remote server and continue attaching? [Y/n] ",
        ),
        (
            RemoteServerRestartReason::DaemonDetachMissing,
            "the remote server was started by a herdr build that may not survive SSH connection loss. restart it so network drops disconnect only this client.",
            "restart the remote server now? [y/N] ",
        ),
        (
            RemoteServerRestartReason::BinaryUpdated,
            "the remote herdr binary was installed or replaced. restart the remote server so it uses the prepared binary.",
            "restart the remote server now? [y/N] ",
        ),
        (
            RemoteServerRestartReason::VersionMismatch,
            "the remote server is still running a different herdr version. restart it so it uses the prepared binary.",
            "restart the remote server now? [y/N] ",
        ),
    ];
    for (reason, line, prompt) in lines {
        let (say, verdict) = ask(reason, true);
        assert_eq!(
            say,
            [
                "remote herdr server on dev is currently running:",
                "  server: v0.6.0",
                "  prepared binary: 0.7.1",
                "",
                line,
            ]
        );
        assert_eq!(verdict, Verdict::Ask(prompt.to_string()));
    }
    assert_eq!(
        refused(ask(RemoteServerRestartReason::ProtocolMismatch, false).1),
        "remote herdr server on dev must stop before this client can attach; run from an interactive terminal to approve stopping it"
    );
    let (say, verdict) = ask(RemoteServerRestartReason::BinaryUpdated, false);
    assert_eq!(
        say,
        ["remote herdr server on dev is still running v0.6.0; it will use 0.7.1 after it restarts."]
    );
    assert_eq!(verdict, Verdict::Settled(false));
}

#[test]
fn answers_about_a_stop_depend_on_the_reason() {
    let mismatch = RemoteServerRestartReason::ProtocolMismatch;
    let updated = RemoteServerRestartReason::BinaryUpdated;
    assert_eq!(answer_server_stop(mismatch, "y"), Ok(true));
    assert_eq!(answer_server_stop(mismatch, " \n"), Ok(true));
    assert_eq!(answer_server_stop(updated, "Yes"), Ok(true));
    assert_eq!(answer_server_stop(updated, "\n"), Ok(false));
    assert_eq!(answer_server_stop(updated, "n"), Ok(false));
    let error = answer_server_stop(mismatch, "n").unwrap_err();
    assert_eq!(error.kind, ErrorKind::Interrupted);
    assert_eq!(error.message, "remote herdr server stop cancelled");
}

#[test]
fn installs_are_approved_unless_declined() {
    let (say, verdict) = confirm_remote_install(&client(), "dev", &herdr(), "the file", true);
    assert_eq!(
        say,
        ["matching herdr 0.7.1 is not installed on dev for linux-x86_64."]
    );
    assert_eq!(
        verdict,
        Verdict::Ask("Install the file to \"$HOME/.local/bin/herdr\"? [Y/n] ".to_string())
    );
    let (say, verdict) = confirm_remote_install(&client(), "dev", &herdr(), "the file", false);
    assert!(say.is_empty());
    assert_eq!(
        refused(verdict),
        "matching remote herdr 0.7.1 is not installed at \"$HOME/.local/bin/herdr\"; run from an interactive terminal to approve installation"
    );
    assert!(answer_remote_install("").is_ok());
    assert!(answer_remote_install("nope").is_ok());
    for answer in ["n", " NO \n"] {
        let error = answer_remote_install(answer).unwrap_err();
        assert_eq!(error.kind, ErrorKind::Interrupted);
        assert_eq!(error.message, "remote herdr installation cancelled");
    }
}

#[test]
fn status_commands_and_their_output() {
    assert_eq!(
        server_status_command(&herdr()),
        "\"$HOME/.local/bin/herdr\" status server --json"
    );
    assert_eq!(
        server_status_text(&output(true, b" {}\n", b"")),
        Ok("{}".to_string())
    );
    assert_eq!(
        server_status_text(&output(false, b"{}", b"gone")).unwrap_err().message,
        "remote server status failed: gone"
    );
    assert_eq!(version_label(None), "unknown");
    assert_eq!(version_label(Some("1.2")), "1.2");
}

fn task() -> ServerTask {
    ServerTask {
        client: client(),
        target: "dev".to_string(),
        remote_herdr: herdr(),
        remote_binary_changed: false,
        stop_approved: false,
        live_handoff_enabled: true,
        terminal: true,
    }
}

fn status(status: RemoteServerStatus, overdue: bool) -> ServerEvent {
    ServerEvent::Status { status, overdue }
}

#[test]
fn compatible_servers_are_left_alone() {
    let task = task();
    assert_eq!(
        server_request(&task, &ServerStage::Status),
        ServerRequest::Status("\"$HOME/.local/bin/herdr\" status server --json".to_string())
    );
    for found in [running(Some("0.7.1"), 8, true), RemoteServerStatus::NotRunning] {
        let (say, stage) =
            ensure_remote_server_ready(&task, ServerStage::Status, status(found, false));
        assert!(say.is_empty());
        assert_eq!(stage, ServerStage::Ready);
    }
    assert_eq!(server_request(&task, &ServerStage::Ready), ServerRequest::Nothing);
}

#[test]
fn servers_hand_over_or_fall_back() {
    let task = task();
    let (_, stage) = ensure_remote_server_ready(
        &task,
        ServerStage::Status,
        status(running(Some("0.6.0"), 8, true), false),
    );
    assert_eq!(
        server_request(&task, &stage),
        ServerRequest::Run(
            "\"$HOME/.local/bin/herdr\" server live-handoff --import-exe \"$HOME/.local/bin/herdr\" --expected-protocol 8 --expected-version 0.7.1".to_string()
        )
    );
    let (say, done) = ensure_remote_server_ready(
        &task,
        stage.clone(),
        ServerEvent::Output(output(true, b"", b"")),
    );
    assert_eq!(
        say,
        ["handed off the remote herdr server on dev; reconnecting to the prepared server."]
    );
    assert_eq!(done, ServerStage::Ready);
    let (say, asked) = ensure_remote_server_ready(
        &task,
        stage.clone(),
        ServerEvent::Output(output(false, b"", b"busy")),
    );
    assert_eq!(
        say[..2],
        [
            "remote live handoff failed: remote server live handoff failed: busy",
            "falling back to remote server restart.",
        ]
    );
    assert_eq!(say.len(), 7);
    assert_eq!(
        asked,
        ServerStage::Confirm {
            reason: RemoteServerRestartReason::VersionMismatch
        }
    );
    let (say, _) = ensure_remote_server_ready(
        &task,
        stage,
        ServerEvent::Lost { cause: "cut".to_string() },
    );
    assert_eq!(say[0], "remote live handoff failed: cut");
}

#[test]
fn servers_stop_with_consent_and_are_waited_for() {
    let mut task = task();
    task.live_handoff_enabled = false;
    let (_, asked) = ensure_remote_server_ready(
        &task,
        ServerStage::Status,
        status(running(Some("0.7.1"), 7, true), false),
    );
    assert_eq!(
        server_request(&task, &asked),
        ServerRequest::Ask("stop the remote server and continue attaching? [Y/n] ".to_string())
    );
    let (_, stop) = ensure_remote_server_ready(
        &task,
        asked.clone(),
        ServerEvent::Answer("\n".to_string()),
    );
    assert_eq!(
        server_request(&task, &stop),
        ServerRequest::Run("\"$HOME/.local/bin/herdr\" server stop".to_string())
    );
    let (_, failed) =
        ensure_remote_server_ready(&task, asked, ServerEvent::Answer("n".to_string()));
    assert!(matches!(failed, ServerStage::Failed(Failure::Own(_))));
    let (_, failed) = ensure_remote_server_ready(
        &task,
        stop.clone(),
        ServerEvent::Output(output(false, b"", b"denied")),
    );
    match failed {
        ServerStage::Failed(Failure::Own(error)) => {
            assert_eq!(error.message, "remote server stop failed: denied")
        }
        other => panic!("{other:?}"),
    }
    let (_, poll) =
        ensure_remote_server_ready(&task, stop, ServerEvent::Output(output(true, b"", b"")));
    assert_eq!(poll, ServerStage::Poll);
    let (_, again) =
        ensure_remote_server_ready(&task, poll, status(running(None, 7, false), false));
    assert_eq!(again, ServerStage::Poll);
    let (_, late) =
        ensure_remote_server_ready(&task, again.clone(), status(running(None, 7, false), true));
    match late {
        ServerStage::Failed(Failure::Own(error)) => {
            assert_eq!(error.kind, ErrorKind::TimedOut);
            assert_eq!(
                error.message,
                "shutdown was requested, but the old remote herdr server on dev is still responding after 5 seconds"
            );
        }
        other => panic!("{other:?}"),
    }
    let (say, ready) =
        ensure_remote_server_ready(&task, again, status(RemoteServerStatus::NotRunning, true));
    assert_eq!(
        say,
        ["stopped the remote herdr server on dev; it will restart when the remote client bridge attaches."]
    );
    assert_eq!(ready, ServerStage::Ready);
}

#[test]
fn approved_stops_are_not_asked_about_again() {
    let mut task = task();
    task.live_handoff_enabled = false;
    task.stop_approved = true;
    task.remote_binary_changed = true;
    let (say, stage) = ensure_remote_server_ready(
        &task,
        ServerStage::Status,
        status(running(Some("0.7.1"), 8, true), false),
    );
    assert!(say.is_empty());
    assert_eq!(stage, ServerStage::Stop);
    task.stop_approved = false;
    task.terminal = false;
    let (say, stage) = ensure_remote_server_ready(
        &task,
        ServerStage::Status,
        status(running(Some("0.7.1"), 8, true), false),
    );
    assert_eq!(say.len(), 1);
    assert_eq!(stage, ServerStage::Ready);
}

#[test]
fn lost_requests_pass_their_failure_on() {
    let task = task();
    let reason = RemoteServerRestartReason::VersionMismatch;
    for stage in [
        ServerStage::Status,
        ServerStage::Confirm { reason },
        ServerStage::Stop,
        ServerStage::Poll,
    ] {
        let (say, next) = ensure_remote_server_ready(
            &task,
            stage,
            ServerEvent::Lost { cause: "cut".to_string() },
        );
        assert!(say.is_empty());
        assert_eq!(next, ServerStage::Failed(Failure::Cause));
    }
    let (_, same) =
        ensure_remote_server_ready(&task, ServerStage::Stop, ServerEvent::Answer("y".to_string()));
    assert_eq!(same, ServerStage::Stop);
}
