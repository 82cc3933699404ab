use herdr_windows::host::{
    binary_reports_client, client_status_line, detect_remote_platform, gather_candidates,
    is_mise_shim_path, known_remote_binary_candidate_script, platform_from_uname_output,
    push_if_new_remote_binary_candidate, remote_binary_candidates, remote_binary_exists_script,
    remote_binary_match_script, remote_binary_matches, remote_binary_on_path_any,
    remote_bridge_command, remote_herdr_from_path, remote_herdr_from_path_discovery,
    remote_herdrs_from_path_discovery, remote_shell_resolves_managed_install,
    warn_if_remote_bin_not_on_path, ClientBuild, RemoteHerdr, RemotePlatform, PATH_WARNING,
};
use herdr_windows::report::{command_failed, failed_with, CommandOutput, ErrorKind};
use herdr_windows::shell::{sanitize_path_component, shell_quote, ssh_config_quote};

const DEFAULT_SESSION_NAME: &str = "default";

fn client() -> ClientBuild {
    ClientBuild {
        version: "0.7.1".to_string(),
        channel: "stable".to_string(),
        preview: false,
        build_id: None,
        protocol: 8,
    }
}

fn current_version() -> String {
    client().version
}

fn linux() -> RemoteHerdr {
    RemoteHerdr::for_platform(RemotePlatform {
        os: "linux",
        arch: "x86_64",
    })
}

fn output(success: bool, stdout: &[u8], stderr: &[u8]) -> CommandOutput {
    CommandOutput {
        success,
        status: "exit code: 1".to_string(),
        stdout: stdout.to_vec(),
        stderr: stderr.to_vec(),
    }
}

#[test]
fn ssh_config_quote_wraps_path_with_spaces() {
    assert_eq!(
        ssh_config_quote("C:\\Users\\a b\\.ssh\\config"),
        "\"C:\\Users\\a b\\.ssh\\config\""
    );
}

#[test]
fn sanitize_path_component_removes_shell_sensitive_chars() {
    assert_eq!(sanitize_path_component("user@host:22"), "user-host-22");
}

#[test]
fn remote_platform_maps_uname_values() {
    assert_eq!(
        RemotePlatform::from_uname("Linux", "amd64")
            .unwrap()
            .asset_key(),
        "linux-x86_64"
    );
    assert_eq!(
        RemotePlatform::from_uname("Darwin", "arm64")
            .unwrap()
            .asset_key(),
        "macos-aarch64"
    );
    assert!(RemotePlatform::from_uname("FreeBSD", "x86_64").is_none());
}

#[test]
fn remote_path_discovery_uses_path_binary() {
    let remote_herdr = RemoteHerdr::for_platform(RemotePlatform {
        os: "linux",
        arch: "x86_64",
    });
    let remote_herdr = remote_herdr_from_path_discovery(&remote_herdr, "/usr/bin/herdr\n")
        .expect("path binary");

    assert_eq!(
        remote_bridge_command(&remote_herdr, DEFAULT_SESSION_NAME, DEFAULT_SESSION_NAME),
        "exec /usr/bin/herdr remote-client-bridge"
    );
}

#[test]
fn remote_path_discovery_quotes_discovered_binary() {
    let remote_herdr = RemoteHerdr::for_platform(RemotePlatform {
        os: "linux",
        arch: "x86_64",
    });
    let remote_herdr =
        remote_herdr_from_path_discovery(&remote_herdr, "/opt/herdr bin/herdr\n")
            .expect("path binary");

    assert_eq!(
        remote_bridge_command(&remote_herdr, DEFAULT_SESSION_NAME, DEFAULT_SESSION_NAME),
        "exec '/opt/herdr bin/herdr' remote-client-bridge"
    );
}

#[test]
fn remote_path_discovery_uses_macos_path_binary() {
    let remote_herdr = RemoteHerdr::for_platform(RemotePlatform {
        os: "macos",
        arch: "aarch64",
    });
    let remote_herdr =
        remote_herdr_from_path_discovery(&remote_herdr, "/opt/homebrew/bin/herdr\n")
            .expect("path binary");

    assert_eq!(
        remote_bridge_command(&remote_herdr, DEFAULT_SESSION_NAME, DEFAULT_SESSION_NAME),
        "exec /opt/homebrew/bin/herdr remote-client-bridge"
    );
    assert_eq!(remote_herdr.platform.asset_key(), "macos-aarch64");
}

#[test]
fn remote_path_discovery_reads_multiple_absolute_paths() {
    let remote_herdr = RemoteHerdr::for_platform(RemotePlatform {
        os: "linux",
        arch: "x86_64",
    });
    let candidates = remote_herdrs_from_path_discovery(
        &remote_herdr,
        "/usr/bin/herdr\nbin/herdr\n /opt/herdr bin/herdr\n",
    );

    assert_eq!(candidates.len(), 2);
    assert_eq!(candidates[0].shell_path, "/usr/bin/herdr");
    assert_eq!(candidates[1].shell_path, "'/opt/herdr bin/herdr'");
}

#[test]
fn remote_path_discovery_ignores_mise_shims() {
    let remote_herdr = RemoteHerdr::for_platform(RemotePlatform {
        os: "linux",
        arch: "x86_64",
    });
    let candidates = remote_herdrs_from_path_discovery(
        &remote_herdr,
        "/home/can/.local/share/mise/shims/herdr\n/home/can/.local/share/mise/installs/herdr/0.7.1/bin/herdr\n",
    );

    assert_eq!(candidates.len(), 1);
    assert_eq!(
        candidates[0].shell_path,
        "/home/can/.local/share/mise/installs/herdr/0.7.1/bin/herdr"
    );
}

#[test]
fn remote_path_discovery_quotes_single_quotes_in_discovered_binary() {
    let remote_herdr = RemoteHerdr::for_platform(RemotePlatform {
        os: "linux",
        arch: "x86_64",
    });
    let remote_herdr =
        remote_herdr_from_path_discovery(&remote_herdr, "/opt/herdr's/bin/herdr\n")
            .expect("path binary");

    assert_eq!(
        remote_bridge_command(&remote_herdr, DEFAULT_SESSION_NAME, DEFAULT_SESSION_NAME),
        "exec '/opt/herdr'\\''s/bin/herdr' remote-client-bridge"
    );
}

#[test]
fn remote_path_discovery_ignores_relative_paths() {
    let remote_herdr = RemoteHerdr::for_platform(RemotePlatform {
        os: "linux",
        arch: "x86_64",
    });
    let remote_herdr = remote_herdr_from_path_discovery(&remote_herdr, "bin/herdr\n");

    assert!(remote_herdr.is_none());
}

#[test]
fn remote_path_discovery_ignores_empty_output() {
    let remote_herdr = RemoteHerdr::for_platform(RemotePlatform {
        os: "linux",
        arch: "x86_64",
    });
    let remote_herdr = remote_herdr_from_path_discovery(&remote_herdr, "\n");

    assert!(remote_herdr.is_none());
}

#[test]
fn remote_shell_path_warning_accepts_managed_install() {
    assert!(remote_shell_resolves_managed_install(
        "/home/can/.local/bin/herdr\n"
    ));
    assert!(remote_shell_resolves_managed_install(
        "/Users/can/.local/bin/herdr\n"
    ));
    assert!(!remote_shell_resolves_managed_install(
        "/usr/local/bin/herdr\n"
    ));
    assert!(!remote_shell_resolves_managed_install(""));
}

#[test]
fn remote_bridge_command_uses_installed_binary() {
    let remote_herdr = RemoteHerdr::for_platform(RemotePlatform {
        os: "linux",
        arch: "x86_64",
    });
    assert_eq!(
        remote_bridge_command(&remote_herdr, DEFAULT_SESSION_NAME, DEFAULT_SESSION_NAME),
        "exec \"$HOME/.local/bin/herdr\" remote-client-bridge"
    );
}

#[test]
fn known_remote_binary_candidate_script_includes_mise_and_nix_paths() {
    let script = known_remote_binary_candidate_script(
        &client(),
        &RemotePlatform {
            os: "linux",
            arch: "x86_64",
        },
    );

    assert!(script.contains("emit \"$home/.local/bin/herdr\""));
    assert!(!script.contains("mise/shims/herdr"));
    assert!(script.contains(&format!("version={}", shell_quote(&current_version()))));
    assert!(script.contains("emit \"$home/.local/share/mise/installs/herdr/$version/bin/herdr\""));
    assert!(script.contains(
        "emit \"$home/.local/share/mise/installs/github-ogulcancelik-herdr/$version/herdr\""
    ));
    assert!(script.contains("emit \"$home/.nix-profile/bin/herdr\""));
    assert!(script.contains("emit \"/etc/profiles/per-user/$user/bin/herdr\""));
    assert!(script.contains("emit \"/run/current-system/sw/bin/herdr\""));
    assert!(script.contains("emit \"/home/linuxbrew/.linuxbrew/bin/herdr\""));
    assert!(!script.contains("emit \"/opt/homebrew/bin/herdr\""));
}

#[test]
fn known_remote_binary_candidate_script_includes_macos_homebrew_paths() {
    let script = known_remote_binary_candidate_script(
        &client(),
        &RemotePlatform {
            os: "macos",
            arch: "aarch64",
        },
    );

    assert!(script.contains("emit \"/opt/homebrew/bin/herdr\""));
    assert!(script.contains("emit \"/usr/local/bin/herdr\""));
    assert!(!script.contains("emit \"/home/linuxbrew/.linuxbrew/bin/herdr\""));
}

#[test]
fn candidate_script_is_complete() {
    let script = known_remote_binary_candidate_script(
        &client(),
        &RemotePlatform::local("windows", "x86_64"),
    );
    assert_eq!(
        script,
        r#"home=${HOME:-}
user=${USER:-}
version=0.7.1
emit() {
    path=$1
    if [ -n "$path" ] && [ -x "$path" ]; then
        printf '%s\n' "$path"
    fi
}
if [ -n "$home" ]; then
    emit "$home/.local/bin/herdr"
fi
if [ -n "$home" ]; then
    emit "$home/.local/share/mise/installs/herdr/$version/bin/herdr"
    emit "$home/.local/share/mise/installs/github-ogulcancelik-herdr/$version/herdr"
    emit "$home/.nix-profile/bin/herdr"
fi
if [ -n "$user" ]; then
    emit "/etc/profiles/per-user/$user/bin/herdr"
fi
emit "/nix/var/nix/profiles/default/bin/herdr"
emit "/run/current-system/sw/bin/herdr"
"#
    );
}

#[test]
fn platforms_of_targets_are_known_or_unknown() {
    assert_eq!(
        RemotePlatform::local("linux", "aarch64").asset_key(),
        "linux-aarch64"
    );
    assert_eq!(
        RemotePlatform::local("macos", "x86_64").asset_key(),
        "macos-x86_64"
    );
    let windows = RemotePlatform::local("windows", "riscv64");
    assert_eq!(windows.asset_key(), "unknown-unknown");
    let host = RemotePlatform::from_uname(" Linux\r", "x86_64 ").unwrap();
    assert!(!windows.same_as(&host));
    assert!(host.same_as(&RemotePlatform::local("linux", "x86_64")));
    assert!(RemotePlatform::from_uname("Linux", "riscv64").is_none());
}

#[test]
fn bridge_command_names_other_sessions() {
    let herdr = remote_herdr_from_path(&linux(), "/usr/bin/herdr").unwrap();
    assert_eq!(
        remote_bridge_command(&herdr, "my work", DEFAULT_SESSION_NAME),
        "exec /usr/bin/herdr --session 'my work' remote-client-bridge"
    );
}

#[test]
fn platform_detection_reads_two_lines() {
    let platform = detect_remote_platform(&output(true, b"Darwin\narm64\n", b"")).unwrap();
    assert_eq!(platform.asset_key(), "macos-aarch64");
    let error = detect_remote_platform(&output(true, b" SunOS \n sparc\n", b"")).unwrap_err();
    assert_eq!(error.kind, ErrorKind::Other);
    assert_eq!(error.message, "unsupported remote platform: SunOS sparc");
    let error = detect_remote_platform(&output(false, b"", b"no route\n")).unwrap_err();
    assert_eq!(error.message, "remote platform detection failed: no route");
    let error = platform_from_uname_output("").unwrap_err();
    assert_eq!(error.message, "unsupported remote platform:  ");
}

#[test]
fn failed_commands_tell_what_they_said_or_how_they_exited() {
    assert_eq!(failed_with("x failed", "exit code: 2", " bad\n"), "x failed: bad");
    assert_eq!(
        command_failed("x failed", &output(false, b"", b" \n")).message,
        "x failed: exit code: 1"
    );
    assert_eq!(
        command_failed("x failed", &output(false, b"", b"a\xffb")).message,
        "x failed: a\u{fffd}b"
    );
}

#[test]
fn candidates_keep_their_order_and_differ() {
    let found = gather_candidates(
        &linux(),
        remote_herdr_from_path(&linux(), "/usr/bin/herdr"),
        "/opt/herdr\n/usr/bin/herdr\n/opt/herdr\n/x/herdr\n",
    );
    let names: Vec<&str> = found.iter().map(|herdr| herdr.shell_path.as_str()).collect();
    assert_eq!(names, ["/usr/bin/herdr", "/opt/herdr", "/x/herdr"]);
    let mut found = found;
    push_if_new_remote_binary_candidate(&mut found, linux());
    push_if_new_remote_binary_candidate(&mut found, linux());
    assert_eq!(found.len(), 4);
}

#[test]
fn candidates_come_from_both_searches() {
    let on_path = remote_binary_on_path_any(&linux(), &output(true, b"/usr/bin/herdr\n", b""));
    assert!(on_path.is_some());
    let found =
        remote_binary_candidates(&linux(), on_path, &output(true, b"/opt/herdr\n", b"")).unwrap();
    assert_eq!(found.len(), 2);
    assert!(remote_binary_on_path_any(&linux(), &output(false, b"/usr/bin/herdr\n", b"")).is_none());
    let error =
        remote_binary_candidates(&linux(), None, &output(false, b"", b"denied")).unwrap_err();
    assert_eq!(error.message, "remote binary discovery failed: denied");
}

#[test]
fn shims_are_told_by_their_end() {
    assert!(is_mise_shim_path("/home/a/.local/share/mise/shims/herdr"));
    assert!(!is_mise_shim_path("/home/a/.local/share/mise/shims/herdr2"));
    assert!(remote_herdr_from_path(&linux(), " /mise/shims/herdr ").is_none());
}

#[test]
fn binaries_match_by_version_and_protocol() {
    let answer = output(true, b"herdr 0.7.1 \n{\"protocol\":8}\nmore\n", b"");
    assert_eq!(client_status_line(&answer), "{\"protocol\":8}");
    assert!(remote_binary_matches(&client(), &answer, Some(8)));
    assert!(!remote_binary_matches(&client(), &answer, Some(7)));
    assert!(!remote_binary_matches(&client(), &answer, None));
    assert!(!remote_binary_matches(&client(), &output(false, b"herdr 0.7.1\n", b""), Some(8)));
    assert!(!binary_reports_client(&client(), "herdr 0.7.10\n", Some(8)));
    assert!(binary_reports_client(&client(), "herdr 0.7.1", Some(8)));
    assert_eq!(
        remote_binary_match_script(&linux()),
        "test -x \"$HOME/.local/bin/herdr\" && \"$HOME/.local/bin/herdr\" --version && \"$HOME/.local/bin/herdr\" status client --json"
    );
    assert_eq!(
        remote_binary_exists_script(&linux()),
        "test -x \"$HOME/.local/bin/herdr\""
    );
}

#[test]
fn unresolved_installs_are_warned_about() {
    assert!(
        warn_if_remote_bin_not_on_path(&output(true, b"/home/a/.local/bin/herdr\n", b"")).is_none()
    );
    assert_eq!(
        warn_if_remote_bin_not_on_path(&output(false, b"/home/a/.local/bin/herdr\n", b"")),
        Some(PATH_WARNING)
    );
    assert_eq!(
        warn_if_remote_bin_not_on_path(&output(true, b"/usr/bin/herdr\n", b"")),
        Some(PATH_WARNING)
    );
}

#[test]
fn names_are_shortened_and_trimmed() {
    assert_eq!(sanitize_path_component("--a b--"), "a-b");
    assert_eq!(sanitize_path_component(&"x".repeat(40)), "x".repeat(32));
    assert_eq!(sanitize_path_component("@@"), "");
    assert_eq!(sanitize_path_component("\u{e9}.x_y"), ".x_y");
}
