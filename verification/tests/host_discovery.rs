use herdr_windows::discovery::{
    discover_remote_herdr, discovery_request, DiscoveryEvent, DiscoveryRequest, DiscoveryStage,
};
use herdr_windows::host::ClientBuild;
use herdr_windows::report::{CommandOutput, ErrorKind, Failure};

fn client() -> ClientBuild {
    ClientBuild {
        version: "0.7.1".to_string(),
        channel: "stable".to_string(),
        preview: false,
        build_id: None,
        protocol: 8,
    }
}

fn output(success: bool, stdout: &[u8]) -> DiscoveryEvent {
    DiscoveryEvent::Output(CommandOutput {
        success,
        status: "exit code: 1".to_string(),
        stdout: stdout.to_vec(),
        stderr: Vec::new(),
    })
}

fn run(events: Vec<DiscoveryEvent>) -> DiscoveryStage {
    events
        .into_iter()
        .fold(DiscoveryStage::Platform, discover_remote_herdr)
}

fn failure(stage: DiscoveryStage) -> (ErrorKind, String) {
    match stage {
        DiscoveryStage::Failed(Failure::Own(error)) => (error.kind, error.message),
        other => panic!("{other:?}"),
    }
}

#[test]
fn hosts_are_discovered_in_order() {
    let client = client();
    let stage = DiscoveryStage::Platform;
    assert_eq!(
        discovery_request(&client, &stage),
        DiscoveryRequest::Script("uname -s\nuname -m\n".to_string())
    );
    let stage = discover_remote_herdr(stage, output(true, b"Linux\nx86_64\n"));
    assert_eq!(
        discovery_request(&client, &stage),
        DiscoveryRequest::Variable("HERDR_REMOTE_BINARY".to_string())
    );
    let stage =
        discover_remote_herdr(stage, DiscoveryEvent::Variable(Some("C:\\herdr".to_string())));
    assert_eq!(
        discovery_request(&client, &stage),
        DiscoveryRequest::IsFile("C:\\herdr".to_string())
    );
    let stage = discover_remote_herdr(stage, DiscoveryEvent::IsFile(Ok(true)));
    assert_eq!(
        discovery_request(&client, &stage),
        DiscoveryRequest::UserShell("command -v herdr".to_string())
    );
    let stage = discover_remote_herdr(stage, output(true, b"/usr/bin/herdr\n"));
    match discovery_request(&client, &stage) {
        DiscoveryRequest::Script(script) => {
            assert!(script.contains("version=0.7.1\n"));
            assert!(script.contains("linuxbrew"));
        }
        other => panic!("{other:?}"),
    }
    let stage = discover_remote_herdr(stage, output(true, b"/opt/herdr\n/usr/bin/herdr\n"));
    assert_eq!(discovery_request(&client, &stage), DiscoveryRequest::Nothing);
    match stage {
        DiscoveryStage::Found { remote_herdr, override_binary, candidates } => {
            assert_eq!(remote_herdr.shell_path, "\"$HOME/.local/bin/herdr\"");
            assert_eq!(override_binary.as_deref(), Some("C:\\herdr"));
            let names: Vec<_> = candidates.into_iter().map(|herdr| herdr.shell_path).collect();
            assert_eq!(names, ["/usr/bin/herdr", "/opt/herdr"]);
        }
        other => panic!("{other:?}"),
    }
}

#[test]
fn discovery_fails_with_what_went_wrong() {
    let linux = || output(true, b"Linux\nx86_64\n");
    assert_eq!(
        failure(run(vec![output(true, b"Plan9\n386\n")])).1,
        "unsupported remote platform: Plan9 386"
    );
    assert_eq!(
        failure(run(vec![linux(), DiscoveryEvent::Variable(Some(String::new()))])),
        (ErrorKind::InvalidInput, "HERDR_REMOTE_BINARY must not be empty".to_string())
    );
    assert_eq!(
        failure(run(vec![
            linux(),
            DiscoveryEvent::Variable(Some("x".to_string())),
            DiscoveryEvent::IsFile(Ok(false)),
        ]))
        .1,
        "HERDR_REMOTE_BINARY path is not a file: x"
    );
    assert_eq!(
        failure(run(vec![
            linux(),
            DiscoveryEvent::Variable(None),
            output(false, b""),
            output(false, b""),
        ]))
        .1,
        "remote binary discovery failed: exit code: 1"
    );
    assert!(matches!(
        run(vec![DiscoveryEvent::Lost]),
        DiscoveryStage::Failed(Failure::Cause)
    ));
    assert!(matches!(
        run(vec![DiscoveryEvent::Variable(None)]),
        DiscoveryStage::Platform
    ));
}
