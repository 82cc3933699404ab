use herdr_windows::args::{
    extract_remote_args, reattach_command, validate_remote_target, RemoteKeybindings,
    RemoteLaunch,
};
use herdr_windows::shell::shell_quote;

const DEFAULT_SESSION_NAME: &str = "default";

fn words(all: &[&str]) -> Vec<String> {
    all.iter().map(|word| word.to_string()).collect()
}

#[test]
fn extract_remote_args_removes_space_form() {
    let args = vec![
        "herdr".into(),
        "--remote".into(),
        "dev".into(),
        "--help".into(),
    ];
    let (cleaned, remote) = extract_remote_args(&args).unwrap();
    assert_eq!(cleaned, vec!["herdr", "--help"]);
    let remote = remote.unwrap();
    assert_eq!(remote.target, "dev");
    assert_eq!(remote.keybindings, RemoteKeybindings::Local);
}

#[test]
fn extract_remote_args_removes_equals_form() {
    let args = vec!["herdr".into(), "--remote=user@host".into()];
    let (cleaned, remote) = extract_remote_args(&args).unwrap();
    assert_eq!(cleaned, vec!["herdr"]);
    let remote = remote.unwrap();
    assert_eq!(remote.target, "user@host");
    assert_eq!(remote.keybindings, RemoteKeybindings::Local);
}

#[test]
fn extract_remote_args_accepts_remote_keybindings_server() {
    let args = vec![
        "herdr".into(),
        "--remote".into(),
        "dev".into(),
        "--remote-keybindings=server".into(),
    ];
    let (cleaned, remote) = extract_remote_args(&args).unwrap();
    assert_eq!(cleaned, vec!["herdr"]);
    let remote = remote.unwrap();
    assert_eq!(remote.target, "dev");
    assert_eq!(remote.keybindings, RemoteKeybindings::Server);
}

#[test]
fn extract_remote_args_accepts_remote_keybindings_space_form() {
    let args = vec![
        "herdr".into(),
        "--remote=dev".into(),
        "--remote-keybindings".into(),
        "server".into(),
    ];
    let (cleaned, remote) = extract_remote_args(&args).unwrap();
    assert_eq!(cleaned, vec!["herdr"]);
    assert_eq!(remote.unwrap().keybindings, RemoteKeybindings::Server);
}

#[test]
fn extract_remote_args_accepts_explicit_handoff() {
    let args = vec!["herdr".into(), "--remote=dev".into(), "--handoff".into()];

    let (cleaned, remote) = extract_remote_args(&args).unwrap();

    assert_eq!(cleaned, vec!["herdr"]);
    let remote = remote.unwrap();
    assert_eq!(remote.target, "dev");
    assert!(remote.live_handoff);
}

#[test]
fn extract_remote_args_preserves_child_remote_options_after_separator() {
    let args = vec![
        "herdr".into(),
        "agent".into(),
        "start".into(),
        "repro".into(),
        "--".into(),
        "child".into(),
        "--remote".into(),
        "dev".into(),
        "--remote-keybindings=server".into(),
        "--handoff".into(),
    ];

    let (cleaned, remote) = extract_remote_args(&args).unwrap();

    assert_eq!(cleaned, args);
    assert!(remote.is_none());
}

#[test]
fn extract_remote_args_preserves_handoff_without_remote() {
    let args = vec!["herdr".into(), "update".into(), "--handoff".into()];

    let (cleaned, remote) = extract_remote_args(&args).unwrap();

    assert_eq!(cleaned, args);
    assert!(remote.is_none());
}

#[test]
fn extract_remote_args_rejects_remote_keybindings_without_remote() {
    let args = vec!["herdr".into(), "--remote-keybindings=server".into()];
    let err = extract_remote_args(&args).unwrap_err();
    assert_eq!(err, "--remote-keybindings requires --remote");
}

#[test]
fn extract_remote_args_rejects_duplicate_remote_keybindings() {
    let args = vec![
        "herdr".into(),
        "--remote=dev".into(),
        "--remote-keybindings=local".into(),
        "--remote-keybindings=server".into(),
    ];
    let err = extract_remote_args(&args).unwrap_err();
    assert_eq!(err, "--remote-keybindings can only be specified once");
}

#[test]
fn extract_remote_args_requires_value() {
    let args = vec!["herdr".into(), "--remote".into()];
    let err = extract_remote_args(&args).unwrap_err();
    assert_eq!(err, "missing value for --remote");
}

#[test]
fn extract_remote_args_rejects_empty_value() {
    let args = vec!["herdr".into(), "--remote=".into()];
    let err = extract_remote_args(&args).unwrap_err();
    assert_eq!(err, "missing value for --remote");
}

#[test]
fn extract_remote_args_rejects_duplicate_values() {
    let args = vec![
        "herdr".into(),
        "--remote=dev".into(),
        "--remote=prod".into(),
    ];
    let err = extract_remote_args(&args).unwrap_err();
    assert_eq!(err, "--remote can only be specified once");
}

#[test]
fn extract_remote_args_rejects_option_like_target() {
    let args = vec!["herdr".into(), "--remote".into(), "-oProxyCommand=x".into()];
    let err = extract_remote_args(&args).unwrap_err();
    assert_eq!(err, "--remote target must not start with '-'");
}

#[test]
fn reattach_command_includes_remote_and_session() {
    assert_eq!(
        reattach_command(
            "target/release/herdr",
            "user@host",
            "work",
            DEFAULT_SESSION_NAME,
            RemoteKeybindings::Local,
            false,
        ),
        "target/release/herdr --remote user@host --session work"
    );
    assert_eq!(
        reattach_command(
            "herdr",
            "host name",
            DEFAULT_SESSION_NAME,
            DEFAULT_SESSION_NAME,
            RemoteKeybindings::Local,
            false,
        ),
        "herdr --remote 'host name'"
    );
    assert_eq!(
        reattach_command(
            "herdr",
            "host",
            DEFAULT_SESSION_NAME,
            DEFAULT_SESSION_NAME,
            RemoteKeybindings::Server,
            false,
        ),
        "herdr --remote host --remote-keybindings server"
    );
    assert_eq!(
        reattach_command(
            "herdr",
            "host",
            DEFAULT_SESSION_NAME,
            DEFAULT_SESSION_NAME,
            RemoteKeybindings::Local,
            true,
        ),
        "herdr --remote host --handoff"
    );
}

#[test]
fn reattach_command_without_program_names_herdr() {
    assert_eq!(
        reattach_command(
            "",
            "host",
            "it's mine",
            DEFAULT_SESSION_NAME,
            RemoteKeybindings::Server,
            true,
        ),
        "herdr --remote host --remote-keybindings server --handoff --session 'it'\\''s mine'"
    );
}

#[test]
fn reattach_words_ask_for_the_same_launch() {
    let command = reattach_command(
        "C:/herdr",
        "user@host",
        "work",
        DEFAULT_SESSION_NAME,
        RemoteKeybindings::Server,
        true,
    );
    let read: Vec<String> = command.split(' ').map(|word| word.to_string()).collect();
    let (left, launch) = extract_remote_args(&read).unwrap();
    assert_eq!(left, words(&["C:/herdr", "--session", "work"]));
    assert_eq!(
        launch,
        Some(RemoteLaunch {
            target: "user@host".to_string(),
            keybindings: RemoteKeybindings::Server,
            live_handoff: true,
        })
    );
}

#[test]
fn extraction_of_what_is_left_changes_nothing() {
    for line in [
        vec!["herdr"],
        vec![],
        vec!["herdr", "--handoff", "update"],
        vec!["herdr", "--handoff", "run", "--", "x", "--remote"],
        vec!["--remote", "list", "--remote=dev", "a"],
    ] {
        let (left, _) = extract_remote_args(&words(&line)).unwrap();
        let (again, launch) = extract_remote_args(&left).unwrap();
        assert_eq!(again, left);
        assert!(launch.is_none());
    }
}

#[test]
fn handoff_without_remote_goes_behind_the_separator_tail() {
    let (left, launch) =
        extract_remote_args(&words(&["herdr", "--handoff", "--", "child"])).unwrap();
    assert_eq!(left, words(&["herdr", "--", "child", "--handoff"]));
    assert!(launch.is_none());
}

#[test]
fn separator_keeps_the_launch_and_the_tail() {
    let (left, launch) = extract_remote_args(&words(&[
        "herdr", "--remote", "dev", "run", "--", "--remote", "--handoff",
    ]))
    .unwrap();
    assert_eq!(left, words(&["herdr", "run", "--", "--remote", "--handoff"]));
    let launch = launch.unwrap();
    assert_eq!(launch.target, "dev");
    assert!(!launch.live_handoff);
}

#[test]
fn every_refusal_of_a_command_line_has_its_message() {
    let refusal = |line: &[&str]| extract_remote_args(&words(line)).unwrap_err();
    assert_eq!(
        refusal(&["herdr", "--remote", "a", "--remote", "b"]),
        "--remote can only be specified once"
    );
    assert_eq!(refusal(&["herdr", "--remote", ""]), "missing value for --remote");
    assert_eq!(
        refusal(&["herdr", "--remote=-x"]),
        "--remote target must not start with '-'"
    );
    assert_eq!(
        refusal(&["herdr", "--remote=a", "--remote-keybindings"]),
        "missing value for --remote-keybindings"
    );
    assert_eq!(
        refusal(&["herdr", "--remote=a", "--remote-keybindings", "both"]),
        "--remote-keybindings must be 'local' or 'server'"
    );
    assert_eq!(
        refusal(&["herdr", "--remote-keybindings=local", "--remote-keybindings=local"]),
        "--remote-keybindings can only be specified once"
    );
    assert_eq!(
        refusal(&["herdr", "--remote-keybindings", "local"]),
        "--remote-keybindings requires --remote"
    );
}

#[test]
fn targets_are_kept_as_they_are() {
    assert_eq!(validate_remote_target("user@host"), Ok("user@host"));
    assert_eq!(
        validate_remote_target(""),
        Err("missing value for --remote".to_string())
    );
    assert_eq!(
        validate_remote_target("-v"),
        Err("--remote target must not start with '-'".to_string())
    );
}

#[test]
fn keybindings_have_names() {
    assert_eq!(RemoteKeybindings::parse("local"), Ok(RemoteKeybindings::Local));
    assert_eq!(RemoteKeybindings::parse("server"), Ok(RemoteKeybindings::Server));
    assert!(RemoteKeybindings::parse("Local").is_err());
    assert_eq!(RemoteKeybindings::Local.as_str(), "local");
    assert_eq!(RemoteKeybindings::Server.as_str(), "server");
}

#[test]
fn shell_words_are_quoted_only_where_needed() {
    assert_eq!(shell_quote("a@b%c_d+e=f:g,h.i/j-k0Z"), "a@b%c_d+e=f:g,h.i/j-k0Z");
    assert_eq!(shell_quote(""), "''");
    assert_eq!(shell_quote("a b"), "'a b'");
    assert_eq!(shell_quote("'"), "''\\'''");
    assert_eq!(shell_quote("$HOME"), "'$HOME'");
    assert_eq!(shell_quote("\u{e9}"), "'\u{e9}'");
}
