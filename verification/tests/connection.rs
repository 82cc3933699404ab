use herdr_windows::args::RemoteKeybindings;
use herdr_windows::report::{CommandOutput, ErrorKind, Failure};
use herdr_windows::ssh::{
    bridge_after_accept, bridge_before_accept, bridge_connection, bridge_failed_line,
    bridge_socket_in_use, client_environment, copy_flush, local_forward_socket_name,
    managed_ssh_config, private_ssh_config_dir, run_client_process, run_remote_client_bridge,
    sh_output, ssh_command_args, ssh_exit_args, windows_user_home, Accepted, BridgeEnd, BridgeStep,
    ConfigDirCounter, CopyStep, ManagedSshOptions, ReadEnd, ScriptSent, SshArg, UserHome,
    SHELL_COMMAND,
};

fn options() -> ManagedSshOptions<String> {
    ManagedSshOptions {
        config_path: "C:\\Temp\\herdr-ssh-1-0\\config".to_string(),
        control_path: "C:\\Temp\\herdr-ssh-1-0\\ctl".to_string(),
    }
}

fn texts(args: Vec<SshArg<String>>) -> Vec<String> {
    args.into_iter()
        .map(|arg| match arg {
            SshArg::Word(word) => word,
            SshArg::Path(path) => path,
        })
        .collect()
}

#[test]
fn remote_ssh_command_uses_managed_config_when_present() {
    let managed_config = options();
    let config_path = managed_config.config_path.clone();
    let control_path = managed_config.control_path.clone();

    let args = texts(ssh_command_args(Some(managed_config), "example", None));

    assert_eq!(
        args,
        vec![
            "-F".to_string(),
            config_path,
            "-S".to_string(),
            control_path,
            "-o".to_string(),
            "ControlMaster=auto".to_string(),
            "-o".to_string(),
            "ControlPersist=yes".to_string(),
            "-T".to_string(),
            "example".to_string(),
        ]
    );
}

#[test]
fn remote_ssh_command_is_plain_without_managed_config() {
    let args = texts(ssh_command_args(None, "example", None));

    assert_eq!(args, vec!["-T".to_string(), "example".to_string()]);
}

#[test]
fn managed_ssh_config_includes_user_config_then_fallback() {
    let contents = managed_ssh_config(
        Some("C:\\Users\\a b\\.ssh\\config"),
        Some("C:\\ProgramData\\ssh\\ssh_config"),
    );

    assert!(contents.contains("Host *"));
    assert!(contents.contains("ServerAliveInterval 15"));
    assert!(contents.contains("ServerAliveCountMax 4"));
    assert!(!contents.contains("ControlMaster"));
    assert!(!contents.contains("ControlPersist"));
    assert!(!contents.contains("ControlPath"));
    let include_at = contents
        .find("Include \"C:\\Users\\a b\\.ssh\\config\"")
        .expect("user config Included");
    let fallback_at = contents.find("Host *").expect("fallback present");
    assert!(include_at < fallback_at);
    assert_eq!(
        contents,
        "Include \"C:\\Users\\a b\\.ssh\\config\"\nInclude \"C:\\ProgramData\\ssh\\ssh_config\"\nHost *\n  ServerAliveInterval 15\n  ServerAliveCountMax 4\n"
    );
    assert_eq!(
        managed_ssh_config(None, None),
        "Host *\n  ServerAliveInterval 15\n  ServerAliveCountMax 4\n"
    );
}

#[test]
fn scripts_have_to_be_sent() {
    let output = CommandOutput {
        success: true,
        status: "exit code: 0".to_string(),
        stdout: b"x".to_vec(),
        stderr: Vec::new(),
    };
    assert_eq!(sh_output(ScriptSent::All, Some(output.clone())), Ok(output.clone()));
    assert_eq!(
        sh_output(ScriptSent::Failed, Some(output.clone())),
        Err(Failure::Cause)
    );
    assert_eq!(sh_output(ScriptSent::NoInput, None), Err(Failure::Cause));
    match sh_output(ScriptSent::NoInput, Some(output)) {
        Err(Failure::Own(error)) => {
            assert_eq!(error.kind, ErrorKind::BrokenPipe);
            assert_eq!(error.message, "ssh bootstrap stdin missing");
        }
        other => panic!("{other:?}"),
    }
}

#[test]
fn remote_commands_follow_the_target() {
    assert_eq!(
        texts(ssh_command_args(None, "dev", Some(SHELL_COMMAND))),
        ["-T", "dev", "/bin/sh -s"]
    );
    let exit = texts(ssh_exit_args(Some(options()), "dev").unwrap());
    assert_eq!(exit[8..], ["-O", "exit", "-o", "BatchMode=yes", "dev"]);
    assert_eq!(exit[0], "-F");
    assert!(ssh_exit_args(None::<ManagedSshOptions<String>>, "dev").is_none());
}

#[test]
fn local_forward_socket_path_uses_readable_name() {
    let filename = local_forward_socket_name(4711, "dev", "default");
    assert!(
        filename.starts_with("herdr-remote-"),
        "expected readable name, got {filename}"
    );
    assert!(filename.contains("-dev-default."), "got {filename}");
    assert_eq!(filename, "herdr-remote-4711-dev-default.sock");
    assert_eq!(
        local_forward_socket_name(0, "a/../b", "c:d"),
        "herdr-remote-0-a-..-b-c-d.sock"
    );
}

#[test]
fn config_directories_differ() {
    assert_eq!(private_ssh_config_dir(12, 0), "herdr-ssh-12-0");
    assert_ne!(private_ssh_config_dir(1, 21), private_ssh_config_dir(1, 2));
    let mut counter = ConfigDirCounter { drawn: 0 };
    let names: Vec<String> = (0..3).map(|_| counter.draw(12)).collect();
    assert_eq!(names, ["herdr-ssh-12-0", "herdr-ssh-12-1", "herdr-ssh-12-2"]);
    let mut last = ConfigDirCounter { drawn: u64::MAX };
    assert_ne!(last.draw(12), last.draw(12));
    assert_eq!(last.drawn, 1);
}

#[test]
fn homes_are_profiles_or_drives() {
    assert_eq!(
        windows_user_home(Some("p"), Some("d"), Some("h")),
        Some(UserHome::Profile("p"))
    );
    assert_eq!(
        windows_user_home(None, Some("d"), Some("h")),
        Some(UserHome::Drive("d", "h"))
    );
    assert_eq!(windows_user_home(None, None, Some("h")), None);
    assert_eq!(windows_user_home(None, Some("d"), None), None);
}

#[test]
fn bridges_serve_until_they_are_told_to_end() {
    assert_eq!(bridge_before_accept(true), BridgeStep::End);
    assert_eq!(bridge_before_accept(false), BridgeStep::Accept);
    let failed = Accepted::Failed { cause: "busy".to_string() };
    assert_eq!(bridge_after_accept(&Accepted::Connection, false), BridgeStep::Serve);
    assert_eq!(bridge_after_accept(&Accepted::Connection, true), BridgeStep::End);
    assert_eq!(bridge_after_accept(&failed, true), BridgeStep::End);
    assert_eq!(
        bridge_after_accept(&failed, false),
        BridgeStep::Retry {
            line: "herdr: remote bridge listener accept failed: busy".to_string()
        }
    );
    assert_eq!(bridge_failed_line("x"), "herdr: remote bridge failed: x");
    assert_eq!(
        bridge_socket_in_use("C:\\s"),
        "herdr remote bridge socket is already in use at C:\\s"
    );
}

#[test]
fn connections_end_with_their_command() {
    let error = |end: BridgeEnd| {
        let error = bridge_connection(&end).unwrap_err();
        (error.kind, error.message)
    };
    assert!(bridge_connection(&BridgeEnd::Ended {
        success: true,
        status: "exit code: 0".to_string()
    })
    .is_ok());
    assert_eq!(
        error(BridgeEnd::Ended { success: false, status: "exit code: 255".to_string() }),
        (ErrorKind::ConnectionAborted, "ssh bridge exited with exit code: 255".to_string())
    );
    assert_eq!(
        error(BridgeEnd::NotStarted { cause: "gone".to_string() }),
        (ErrorKind::OfCause, "failed to start ssh bridge: gone".to_string())
    );
    assert_eq!(
        error(BridgeEnd::NoInput),
        (ErrorKind::BrokenPipe, "ssh bridge stdin missing".to_string())
    );
    assert_eq!(
        error(BridgeEnd::NoOutput),
        (ErrorKind::BrokenPipe, "ssh bridge stdout missing".to_string())
    );
}

#[test]
fn copies_count_what_they_read() {
    assert_eq!(copy_flush(7, ReadEnd::Bytes(0)), CopyStep::End { total: 7 });
    assert_eq!(copy_flush(7, ReadEnd::Bytes(5)), CopyStep::Write { total: 12 });
    assert_eq!(copy_flush(7, ReadEnd::Interrupted), CopyStep::Again);
    assert_eq!(copy_flush(7, ReadEnd::Failed), CopyStep::Fail);
}

#[test]
fn clients_are_told_how_to_attach_again() {
    assert_eq!(
        client_environment("herdr --remote dev", RemoteKeybindings::Server),
        [
            ("HERDR_RENDER_ENCODING".to_string(), "terminal-ansi".to_string()),
            ("HERDR_REATTACH_COMMAND".to_string(), "herdr --remote dev".to_string()),
            ("HERDR_REMOTE_KEYBINDINGS".to_string(), "server".to_string()),
        ]
    );
    assert!(run_client_process(true, "exit code: 0").is_ok());
    let error = run_client_process(false, "exit code: 3").unwrap_err();
    assert_eq!(error.kind, ErrorKind::Interrupted);
    assert_eq!(error.message, "remote client exited with exit code: 3");
    assert_eq!(
        run_remote_client_bridge().unwrap_err().message,
        "remote-client-bridge only runs on the SSH-attached remote host and is not applicable on Windows"
    );
}
