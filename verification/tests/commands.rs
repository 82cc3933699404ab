use herdr_windows::commands::{
    custom_command, open_url, raw_command_shell, scrollback_editor,
    scrollback_editor_argv_with_env, show_desktop_notification,
};
use herdr_windows::report::ErrorKind;
use herdr_windows::text::{
    decimal_text, ends_with, from_chars, is_ascii_alphanumeric, is_white_space, lines, nth_line,
    same_text, starts_with_char, strip_prefix, to_ascii_lowercase, to_chars, trim,
    trim_start_matches,
};
use herdr_windows::utf16::{
    decode_utf16, decode_utf16_lossy, encode_utf16, nul_terminated_utf16_to_string, wide_null,
};

#[test]
fn pane_custom_command_uses_cmd() {
    let command = custom_command(
        "echo hello",
        Some(r"C:\Windows\System32\cmd.exe".to_string()),
    );

    assert_eq!(command.program, r"C:\Windows\System32\cmd.exe");
    assert_eq!(command.args, ["/d", "/c"]);
    assert_eq!(command.raw_tail, "echo hello");
}

#[test]
fn custom_command_falls_back_when_comspec_is_empty() {
    let command = custom_command("echo hello", Some(String::new()));

    assert_eq!(command.program, r"C:\Windows\System32\cmd.exe");
    assert_eq!(command.args, ["/d", "/c"]);
    assert_eq!(raw_command_shell(None), r"C:\Windows\System32\cmd.exe");
    assert_eq!(raw_command_shell(Some("sh".to_string())), "sh");
}

#[test]
fn scrollback_editor_argv_uses_editor_env_and_appends_path() {
    let path = r"C:\Users\User\AppData\Local\Temp\herdr scrollback.txt";
    let argv = scrollback_editor_argv_with_env(
        path,
        Some(r#""C:\Program Files\Microsoft VS Code\Code.exe" --wait"#),
        Some(vec![
            r"C:\Program Files\Microsoft VS Code\Code.exe".to_string(),
            "--wait".to_string(),
        ]),
    )
    .unwrap();

    assert_eq!(argv[0], r"C:\Program Files\Microsoft VS Code\Code.exe");
    assert_eq!(argv[1], "--wait");
    assert_eq!(argv[2], path);
}

#[test]
fn scrollback_editor_argv_falls_back_to_notepad() {
    let path = r"C:\Temp\herdr-scrollback.txt";
    let argv = scrollback_editor_argv_with_env(path, None, None).unwrap();

    assert_eq!(argv, vec!["notepad.exe".to_string(), path.to_string()]);
}

#[test]
fn editors_have_to_be_readable() {
    let error = scrollback_editor_argv_with_env("p", Some("a \"b\""), None).unwrap_err();
    assert_eq!(error.kind, ErrorKind::InvalidInput);
    assert_eq!(error.message, "failed to parse editor command \"a \\\"b\\\"\"");
    let error = scrollback_editor_argv_with_env("p", Some("x"), Some(vec![])).unwrap_err();
    assert_eq!(error.kind, ErrorKind::InvalidInput);
    assert_eq!(error.message, "editor command must not be empty");
    assert_eq!(
        scrollback_editor_argv_with_env("p", Some(" \t"), None).unwrap(),
        ["notepad.exe", "p"]
    );
}

#[test]
fn visual_editors_come_first() {
    let some = |text: &str| Some(text.to_string());
    assert_eq!(scrollback_editor(some("v"), some("e")), some("v"));
    assert_eq!(scrollback_editor(some("  "), some("e")), some("e"));
    assert_eq!(scrollback_editor(None, some("e ")), some("e "));
    assert_eq!(scrollback_editor(None, some("\n")), None);
    assert_eq!(scrollback_editor(None, None), None);
}

#[test]
fn addresses_are_opened_above_a_code() {
    assert!(open_url(33).is_ok());
    for (code, shown) in [(32, "32"), (0, "0"), (-5, "-5")] {
        let error = open_url(code).unwrap_err();
        assert_eq!(error.kind, ErrorKind::Other);
        assert_eq!(
            error.message,
            format!("failed to open URL with ShellExecuteW: code {shown}")
        );
    }
    assert_eq!(
        open_url(isize::MIN).unwrap_err().message,
        format!("failed to open URL with ShellExecuteW: code {}", isize::MIN)
    );
    assert_eq!(show_desktop_notification("t", Some("b")), Ok(false));
}

#[test]
fn characters_are_classified_as_in_std() {
    for code in 0..=0x10ffff {
        if let Some(c) = char::from_u32(code) {
            assert_eq!(is_white_space(c), c.is_whitespace(), "{code:x}");
            assert_eq!(is_ascii_alphanumeric(c), c.is_ascii_alphanumeric(), "{code:x}");
        }
    }
}

#[test]
fn texts_are_taken_apart_as_in_std() {
    for text in [
        "", " ", "a", " a b\t", "\n", "a\n", "a\r\nb\n\nc\r", "\r\n\r", "x\ry\n", "vv1.2", "v",
        "\u{3000}\u{e9}\u{85}", "ABC\u{c9}z",
    ] {
        assert_eq!(trim(text), text.trim());
        assert_eq!(lines(text), text.lines().collect::<Vec<_>>());
        assert_eq!(nth_line(text, 1), text.lines().nth(1).unwrap_or_default());
        assert_eq!(trim_start_matches(text, 'v'), text.trim_start_matches('v'));
        assert_eq!(to_ascii_lowercase(text), text.to_ascii_lowercase());
        assert_eq!(strip_prefix(text, "v").as_deref(), text.strip_prefix('v'));
        assert_eq!(strip_prefix(text, "").as_deref(), Some(text));
        assert_eq!(ends_with(text, "z"), text.ends_with('z'));
        assert_eq!(starts_with_char(text, 'v'), text.starts_with('v'));
        let chars = to_chars(text);
        assert_eq!(chars, text.chars().collect::<Vec<_>>());
        assert_eq!(from_chars(&chars, 0, chars.len()), text);
    }
    assert!(same_text("a", "a") && !same_text("a", "b"));
    for n in [0, 9, 10, 4711, u64::MAX] {
        assert_eq!(decimal_text(n), n.to_string());
    }
}

#[test]
fn utf16_reads_back_as_in_std() {
    for text in ["", "a", "\u{e9}\u{ffff}\u{10000}\u{10ffff}", "\u{d7ff}\u{e000}"] {
        let units = encode_utf16(text);
        assert_eq!(units, text.encode_utf16().collect::<Vec<_>>());
        assert_eq!(decode_utf16_lossy(&units), text);
        assert_eq!(decode_utf16(&units).as_deref(), Some(text));
        let mut buffer = wide_null(text);
        buffer.push(0x78);
        assert_eq!(nul_terminated_utf16_to_string(&buffer), text);
    }
    for units in [
        vec![0xd800],
        vec![0xdc00, 0x61],
        vec![0xd800, 0x61],
        vec![0xd800, 0xd801, 0xdc01],
        vec![0xdfff, 0xd83d, 0xde00, 0xdbff],
    ] {
        assert_eq!(decode_utf16_lossy(&units), String::from_utf16_lossy(&units));
        assert_eq!(decode_utf16(&units), String::from_utf16(&units).ok());
    }
    assert_eq!(nul_terminated_utf16_to_string(&[0x61, 0x62]), "ab");
}
