use herdr_windows::host::{ClientBuild, RemoteHerdr, RemotePlatform};
use herdr_windows::install::{
    download_curl_options, download_dir_name, download_release_asset, install_committed,
    install_prepared, install_source_description, install_source_description_for,
    install_streamed, local_binary_can_seed_remote, override_inspected, override_requested,
    parse_remote_install_paths, private_download_dir, remote_install_commit_script,
    remote_install_prepare_script, remote_install_stream_command, resolve_install_source, Copied,
    DirAttempt, DirStep, DownloadEnd, InstallSource, SourcePlan, StreamEnd,
};
use herdr_windows::report::{CommandOutput, ErrorKind, Failure};

fn client() -> ClientBuild {
    ClientBuild {
        version: "0.7.1".to_string(),
        channel: "stable".to_string(),
        preview: false,
        build_id: None,
        protocol: 8,
    }
}

fn current_version() -> String {
    client().version
}

fn current_channel() -> String {
    client().channel
}

fn local_platform() -> RemotePlatform {
    RemotePlatform::local("windows", "x86_64")
}

fn output(success: bool, stdout: &[u8], stderr: &[u8]) -> CommandOutput {
    CommandOutput {
        success,
        status: "exit code: 1".to_string(),
        stdout: stdout.to_vec(),
        stderr: stderr.to_vec(),
    }
}

#[test]
fn remote_install_stream_command_avoids_shell_c_wrapper() {
    let command = remote_install_stream_command("/home/a b/.local/bin/herdr.tmp.123");

    assert_eq!(command, "tee '/home/a b/.local/bin/herdr.tmp.123'");
}

#[test]
fn remote_install_prepare_and_commit_scripts_quote_paths() {
    let remote_herdr = RemoteHerdr::for_platform(RemotePlatform {
        os: "linux",
        arch: "x86_64",
    });
    let prepare = remote_install_prepare_script(&remote_herdr);

    assert!(prepare.contains("mkdir -p \"$dir\""));
    assert!(prepare.contains("printf '%s\\0%s\\0' \"$tmp\" \"$dest\""));
    assert_eq!(
        parse_remote_install_paths(b"/home/a b/herdr.tmp.42\0/home/a b/herdr\0").unwrap(),
        (
            "/home/a b/herdr.tmp.42".to_string(),
            "/home/a b/herdr".to_string()
        )
    );
    assert_eq!(
        parse_remote_install_paths(b"/home/a b\n/herdr.tmp.42\0/home/a b\n/herdr\0").unwrap(),
        (
            "/home/a b\n/herdr.tmp.42".to_string(),
            "/home/a b\n/herdr".to_string()
        )
    );
    assert_eq!(
        remote_install_commit_script("/home/a b/herdr.tmp.42", "/home/a b/herdr"),
        "set -eu\nchmod 755 '/home/a b/herdr.tmp.42'\nmv '/home/a b/herdr.tmp.42' '/home/a b/herdr'\n"
    );
}

#[test]
fn prepare_script_is_complete() {
    let remote_herdr = RemoteHerdr::for_platform(RemotePlatform {
        os: "linux",
        arch: "x86_64",
    });
    assert_eq!(
        remote_install_prepare_script(&remote_herdr),
        "set -eu\ndest=\"$HOME/.local/bin/herdr\"\ndir=\"${dest%/*}\"\nmkdir -p \"$dir\"\ntmp=\"${dest}.tmp.$$\"\nprintf '%s\\0%s\\0' \"$tmp\" \"$dest\"\n"
    );
}

#[test]
fn install_paths_have_to_be_there_and_be_text() {
    let missing = "remote install preparation did not return destination paths";
    for stdout in [&b""[..], b"/tmp", b"/tmp\0", b"\0/dest\0", b"/tmp\0\0"] {
        assert_eq!(parse_remote_install_paths(stdout).unwrap_err().message, missing);
    }
    assert_eq!(
        parse_remote_install_paths(b"/t\xff\0/dest\0").unwrap_err().message,
        "remote install temporary path is not valid UTF-8: invalid utf-8 sequence of 1 bytes from index 2"
    );
    assert_eq!(
        parse_remote_install_paths(b"/t\0/d\xc3").unwrap_err().message,
        "remote install destination path is not valid UTF-8: incomplete utf-8 byte sequence from index 2"
    );
    assert_eq!(
        parse_remote_install_paths("/t\u{e9}\0/d\0rest".as_bytes()).unwrap(),
        ("/t\u{e9}".to_string(), "/d".to_string())
    );
}

#[test]
fn installation_goes_on_only_after_success() {
    let paths = install_prepared(&output(true, b"/t\0/d\0", b"")).unwrap();
    assert_eq!(paths, ("/t".to_string(), "/d".to_string()));
    assert_eq!(
        install_prepared(&output(false, b"/t\0/d\0", b"full")).unwrap_err().message,
        "remote install preparation failed: full"
    );
    let ended = |copied, success| StreamEnd::Ended {
        copied,
        success,
        status: "exit code: 3".to_string(),
    };
    assert_eq!(
        install_streamed("/t", "/d", &ended(Copied::All, true)),
        Ok("set -eu\nchmod 755 /t\nmv /t /d\n".to_string())
    );
    let failure = |end: &StreamEnd| match install_streamed("/t", "/d", end) {
        Err(Failure::Own(error)) => (error.kind, error.message),
        other => panic!("{other:?}"),
    };
    assert_eq!(
        failure(&ended(Copied::All, false)),
        (ErrorKind::Other, "remote install exited with exit code: 3".to_string())
    );
    assert_eq!(
        failure(&ended(Copied::NoInput, true)),
        (ErrorKind::BrokenPipe, "ssh install stdin missing".to_string())
    );
    assert_eq!(
        failure(&StreamEnd::NotStarted { cause: "not found".to_string() }),
        (ErrorKind::OfCause, "failed to start ssh install: not found".to_string())
    );
    assert_eq!(
        install_streamed("/t", "/d", &ended(Copied::Failed, true)),
        Err(Failure::Cause)
    );
    assert_eq!(install_streamed("/t", "/d", &StreamEnd::Lost), Err(Failure::Cause));
    assert!(install_committed(&output(true, b"", b"")).is_ok());
    assert_eq!(
        install_committed(&output(false, b"", b"")).unwrap_err().message,
        "remote install commit failed: exit code: 1"
    );
}

#[test]
fn install_source_description_uses_override_binary() {
    let platform = RemotePlatform {
        os: "linux",
        arch: "aarch64",
    };
    assert_eq!(
        install_source_description_for(&client(), &platform, Some("/tmp/herdr-aarch64"), false),
        "HERDR_REMOTE_BINARY (/tmp/herdr-aarch64)"
    );
}

#[test]
fn install_source_description_uses_local_binary_when_allowed() {
    let platform = local_platform();

    assert_eq!(
        install_source_description_for(&client(), &platform, None, true),
        "the current local herdr binary"
    );
}

#[test]
fn install_source_description_uses_release_asset_when_local_binary_cannot_seed_remote() {
    let platform = local_platform();

    assert_eq!(
        install_source_description_for(&client(), &platform, None, false),
        format!(
            "the {} {} asset for {}",
            current_version(),
            current_channel(),
            platform.asset_key()
        )
    );
    assert_eq!(
        install_source_description(&client(), &platform, None),
        install_source_description_for(&client(), &platform, None, false)
    );
}

#[test]
fn resolve_install_source_uses_override_binary_without_temporary_cleanup() {
    let platform = RemotePlatform {
        os: "linux",
        arch: "aarch64",
    };
    let plan = resolve_install_source(
        &platform,
        &local_platform(),
        Some("/tmp/herdr-aarch64".to_string()),
    );
    let source = match plan {
        SourcePlan::File(source) => source,
        other => panic!("{other:?}"),
    };
    assert_eq!(source.path, "/tmp/herdr-aarch64");
    assert!(source.temporary_dir.is_none());
    assert_eq!(
        resolve_install_source(&platform, &platform, None),
        SourcePlan::Download
    );
}

#[test]
fn local_binary_can_seed_remote_is_always_false_on_windows() {
    assert!(!local_binary_can_seed_remote(&local_platform()));
    assert!(!local_binary_can_seed_remote(&RemotePlatform {
        os: "linux",
        arch: "x86_64",
    }));
}

#[test]
fn override_has_to_name_a_file() {
    assert_eq!(override_requested(None), Ok(None));
    assert_eq!(
        override_requested(Some("x".to_string())),
        Ok(Some("x".to_string()))
    );
    let error = override_requested(Some(String::new())).unwrap_err();
    assert_eq!(error.kind, ErrorKind::InvalidInput);
    assert_eq!(error.message, "HERDR_REMOTE_BINARY must not be empty");
    assert_eq!(override_inspected("x".to_string(), Ok(true)), Ok("x".to_string()));
    let error = override_inspected("x".to_string(), Ok(false)).unwrap_err();
    assert_eq!(error.kind, ErrorKind::InvalidInput);
    assert_eq!(error.message, "HERDR_REMOTE_BINARY path is not a file: x");
    let error = override_inspected("x".to_string(), Err("gone".to_string())).unwrap_err();
    assert_eq!(error.kind, ErrorKind::OfCause);
    assert_eq!(error.message, "failed to inspect HERDR_REMOTE_BINARY path x: gone");
}

#[test]
fn download_directories_are_tried_in_turn() {
    assert_eq!(
        download_dir_name(4711, "linux-x86_64", 12),
        "herdr-remote-4711-linux-x86_64-12"
    );
    assert_ne!(download_dir_name(1, "k", 1), download_dir_name(1, "k", 11));
    assert_eq!(private_download_dir(0, DirAttempt::Created), DirStep::Use);
    assert_eq!(private_download_dir(0, DirAttempt::Exists), DirStep::Try(1));
    assert_eq!(private_download_dir(98, DirAttempt::Exists), DirStep::Try(99));
    assert_eq!(
        private_download_dir(3, DirAttempt::Failed),
        DirStep::GiveUp(Failure::Cause)
    );
    match private_download_dir(99, DirAttempt::Exists) {
        DirStep::GiveUp(Failure::Own(error)) => {
            assert_eq!(error.kind, ErrorKind::AlreadyExists);
            assert_eq!(
                error.message,
                "failed to create private herdr remote download directory"
            );
        }
        other => panic!("{other:?}"),
    }
}

#[test]
fn downloads_leave_a_file_or_an_error() {
    assert_eq!(
        download_curl_options(),
        ["-sfL", "--max-time", "120", "-o"]
    );
    let end = |end: &DownloadEnd| download_release_asset("/d/f".to_string(), "/d".to_string(), end);
    let (source, remove) = end(&DownloadEnd::Fetched);
    assert_eq!(
        source,
        Ok(InstallSource::temporary("/d/f".to_string(), "/d".to_string()))
    );
    assert!(!remove);
    let (error, remove) = end(&DownloadEnd::Failed);
    assert_eq!(error.unwrap_err().message, "download failed");
    assert!(remove);
    let (error, remove) = end(&DownloadEnd::NotStarted { cause: "no curl".to_string() });
    let error = error.unwrap_err();
    assert_eq!(error.kind, ErrorKind::OfCause);
    assert_eq!(error.message, "download failed: no curl");
    assert!(!remove);
    let (error, remove) = end(&DownloadEnd::BadChecksum { cause: "differs".to_string() });
    assert_eq!(
        error.unwrap_err().message,
        "downloaded remote asset checksum verification failed: differs"
    );
    assert!(remove);
}
