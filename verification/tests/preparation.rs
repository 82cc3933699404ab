use herdr_windows::host::{remote_herdr_from_path, ClientBuild, RemoteHerdr, RemotePlatform};
use herdr_windows::prepare::{
    begin_prepare, prepare_remote_herdr, prepare_request, prepared_herdr, PrepareEvent,
    PrepareRequest, PrepareStage, PrepareTask,
};
use herdr_windows::report::{CommandOutput, ErrorKind, Failure};
use herdr_windows::server::RemoteServerStatus;

fn herdr() -> RemoteHerdr {
    RemoteHerdr::for_platform(RemotePlatform {
        os: "linux",
        arch: "x86_64",
    })
}

fn task(candidates: &[&str], override_binary: Option<&str>, terminal: bool) -> PrepareTask {
    PrepareTask {
        client: ClientBuild {
            version: "0.7.1".to_string(),
            channel: "stable".to_string(),
            preview: false,
            build_id: None,
            protocol: 8,
        },
        target: "dev".to_string(),
        remote_herdr: herdr(),
        override_binary: override_binary.map(str::to_string),
        candidates: candidates
            .iter()
            .map(|path| remote_herdr_from_path(&herdr(), path).unwrap())
            .collect(),
        live_handoff_enabled: false,
        terminal,
    }
}

fn output(success: bool, stdout: &[u8]) -> CommandOutput {
    CommandOutput {
        success,
        status: "exit code: 1".to_string(),
        stdout: stdout.to_vec(),
        stderr: Vec::new(),
    }
}

fn answer(text: &str) -> PrepareEvent {
    PrepareEvent::Answer(text.to_string())
}

fn run(task: &PrepareTask, events: Vec<PrepareEvent>) -> (Vec<String>, PrepareStage) {
    let mut say = Vec::new();
    let mut stage = begin_prepare(task);
    for event in events {
        let (lines, next) = prepare_remote_herdr(task, stage, event);
        say.extend(lines);
        stage = next;
    }
    (say, stage)
}

fn failure(stage: PrepareStage) -> (ErrorKind, String) {
    match stage {
        PrepareStage::Failed(Failure::Own(error)) => (error.kind, error.message),
        other => panic!("{other:?}"),
    }
}

#[test]
fn first_fitting_candidate_is_used() {
    let task = task(&["/a/herdr", "/b/herdr", "/c/herdr"], None, false);
    let (say, stage) = run(
        &task,
        vec![PrepareEvent::Lost, PrepareEvent::Matched(true)],
    );
    assert!(say.is_empty());
    let prepared = prepared_herdr(&task, &stage).unwrap();
    assert_eq!(prepared.remote_herdr.shell_path, "/b/herdr");
    assert!(!prepared.installed_or_replaced);
    assert!(!prepared.stop_after_install_approved);
    assert_eq!(prepare_request(&task, &stage), PrepareRequest::Nothing);
}

#[test]
fn managed_binary_is_compared_last() {
    let task = task(&["/a/herdr"], None, true);
    assert_eq!(
        prepare_request(&task, &begin_prepare(&task)),
        PrepareRequest::Match(
            "test -x /a/herdr && /a/herdr --version && /a/herdr status client --json".to_string()
        )
    );
    let (_, stage) = run(&task, vec![PrepareEvent::Matched(false)]);
    assert_eq!(stage, PrepareStage::Probe { next: 1 });
    let (_, done) = run(
        &task,
        vec![PrepareEvent::Matched(false), PrepareEvent::Matched(true)],
    );
    let prepared = prepared_herdr(&task, &done).unwrap();
    assert_eq!(prepared.remote_herdr.shell_path, "\"$HOME/.local/bin/herdr\"");
    let (_, lost) = run(&task, vec![PrepareEvent::Matched(false), PrepareEvent::Lost]);
    assert_eq!(lost, PrepareStage::Failed(Failure::Cause));
    let (_, none) = run(
        &task,
        vec![PrepareEvent::Matched(false), PrepareEvent::Matched(false)],
    );
    assert_eq!(none, PrepareStage::Status);
    assert_eq!(
        prepare_request(&task, &none),
        PrepareRequest::Status("/a/herdr status server --json".to_string())
    );
}

#[test]
fn overrides_are_installed_with_consent() {
    let task = task(&[], Some("/tmp/herdr"), true);
    assert_eq!(begin_prepare(&task), PrepareStage::Exists);
    let (say, stage) = run(
        &task,
        vec![
            PrepareEvent::Output(output(true, b"")),
            PrepareEvent::Status(Ok(RemoteServerStatus::NotRunning)),
        ],
    );
    assert_eq!(
        say,
        ["matching herdr 0.7.1 is not installed on dev for linux-x86_64."]
    );
    assert_eq!(
        prepare_request(&task, &stage),
        PrepareRequest::Ask(
            "Install HERDR_REMOTE_BINARY (/tmp/herdr) to \"$HOME/.local/bin/herdr\"? [Y/n] "
                .to_string()
        )
    );
    let (say, stage) = run(
        &task,
        vec![
            PrepareEvent::Output(output(false, b"")),
            answer("\n"),
            PrepareEvent::Installed,
            PrepareEvent::Matched(true),
            PrepareEvent::Output(output(true, b"/usr/bin/herdr\n")),
        ],
    );
    assert_eq!(say.len(), 2);
    assert!(say[1].starts_with("herdr: installed remote binary to ~/.local/bin/herdr"));
    let prepared = prepared_herdr(&task, &stage).unwrap();
    assert!(prepared.installed_or_replaced);
    assert!(!prepared.stop_after_install_approved);
}

#[test]
fn stops_are_remembered_until_the_end() {
    let task = task(&["/a/herdr"], Some("/tmp/herdr"), true);
    let old = || {
        PrepareEvent::Status(Ok(RemoteServerStatus::Running {
            version: Some("0.6.0".to_string()),
            protocol: Some(7),
            live_handoff: false,
            detached_server_daemon: true,
        }))
    };
    let (_, stage) = run(
        &task,
        vec![
            old(),
            answer("yes"),
            answer(""),
            PrepareEvent::Installed,
            PrepareEvent::Matched(true),
            PrepareEvent::Output(output(true, b"/home/a/.local/bin/herdr\n")),
        ],
    );
    assert_eq!(
        stage,
        PrepareStage::Done { candidate: None, installed: true, stop: true }
    );
    let (_, cancelled) = run(&task, vec![old(), answer("")]);
    assert_eq!(
        failure(cancelled),
        (ErrorKind::Interrupted, "remote herdr install cancelled".to_string())
    );
    let (_, cancelled) = run(&task, vec![old(), answer("y"), answer("n")]);
    assert_eq!(
        failure(cancelled),
        (ErrorKind::Interrupted, "remote herdr installation cancelled".to_string())
    );
    let (_, unknown) = run(
        &task,
        vec![PrepareEvent::Status(Err("huh".to_string())), answer("y"), answer("y")],
    );
    assert_eq!(unknown, PrepareStage::Install { stop: false });
}

#[test]
fn nothing_is_installed_without_a_terminal() {
    let task = task(&[], None, false);
    let (_, stage) = run(&task, vec![PrepareEvent::Matched(false), PrepareEvent::Lost]);
    assert_eq!(
        failure(stage),
        (
            ErrorKind::Other,
            "matching remote herdr 0.7.1 is not installed at \"$HOME/.local/bin/herdr\"; run from an interactive terminal to approve installation".to_string()
        )
    );
}

#[test]
fn installed_binaries_have_to_match() {
    let task = task(&[], Some("/tmp/herdr"), true);
    let (_, stage) = run(
        &task,
        vec![
            PrepareEvent::Lost,
            answer("y"),
            PrepareEvent::Installed,
            PrepareEvent::Matched(false),
        ],
    );
    assert_eq!(
        failure(stage),
        (
            ErrorKind::Other,
            "installed remote herdr at \"$HOME/.local/bin/herdr\", but it did not report version 0.7.1".to_string()
        )
    );
    let (_, stage) = run(&task, vec![PrepareEvent::Lost, answer("y"), PrepareEvent::Lost]);
    assert_eq!(stage, PrepareStage::Failed(Failure::Cause));
    assert!(prepared_herdr(&task, &stage).is_none());
}
