//! Commands of the user: custom commands and the editor for scrollback.
use crate::report::ErrorKind;
use crate::report::RemoteError;
use crate::report;
use crate::text::debug_text;
use crate::text::decimal_text;
use crate::text::trim;
use crate::text;
use vstd::prelude::*;
use vstd::string::*;

verus! {

/// The shell where the system does not name one.
pub const DEFAULT_SHELL: &'static str = r"C:\Windows\System32\cmd.exe";

/// The shell that runs custom commands: the one that the system names.
pub open spec fn command_shell(comspec: Option<Seq<char>>) -> Seq<char> {
    match comspec {
        Some(shell) => if shell.len() == 0 {
            DEFAULT_SHELL@
        } else {
            shell
        },
        None => DEFAULT_SHELL@,
    }
}

/// The shell that runs custom commands: the one that the system names.
pub fn raw_command_shell(comspec: Option<String>) -> (res: String)
    ensures
        res@ == command_shell(comspec.deep_view()),
{
    if let Some(shell) = comspec {
        if !shell.as_str().is_empty() {
            return shell;
        }
    }
    DEFAULT_SHELL.to_string()
}

/// A program with its arguments and a tail that is passed on as it is, without quotes.
#[derive(Debug, Clone, PartialEq, Eq)]
pub struct ShellCommand {
    pub program: String,
    pub args: Vec<String>,
    pub raw_tail: String,
}

/// How a custom command is run: by the shell, which reads it as it is.
pub fn custom_command(command: &str, comspec: Option<String>) -> (res: ShellCommand)
    ensures
        res.program@ == command_shell(comspec.deep_view()),
        res.args.deep_view() == seq!["/d"@, "/c"@],
        res.raw_tail@ == command@,
{
    let mut shell_args: Vec<String> = Vec::new();
    shell_args.push("/d".to_string());
    shell_args.push("/c".to_string());
    assert(shell_args.deep_view() =~= seq!["/d"@, "/c"@]);
    ShellCommand {
        program: raw_command_shell(comspec),
        args: shell_args,
        raw_tail: command.to_string(),
    }
}

/// A text that is not blank.
pub open spec fn not_blank(value: Option<Seq<char>>) -> Option<Seq<char>> {
    match value {
        Some(value) => if text::trimmed(value).len() == 0 {
            None
        } else {
            Some(value)
        },
        None => None,
    }
}

fn keep_not_blank(value: Option<String>) -> (res: Option<String>)
    ensures
        res.deep_view() == not_blank(value.deep_view()),
{
    match value {
        Some(value) => {
            if trim(value.as_str()).as_str().is_empty() {
                None
            } else {
                Some(value)
            }
        },
        None => None,
    }
}

/// The editor that the user's variables name: the visual one before the other.
pub fn scrollback_editor(visual: Option<String>, editor: Option<String>) -> (res: Option<String>)
    ensures
        res.deep_view() == (if not_blank(visual.deep_view()) is Some {
            not_blank(visual.deep_view())
        } else {
            not_blank(editor.deep_view())
        }),
{
    let visual = keep_not_blank(visual);
    if visual.is_some() {
        return visual;
    }
    keep_not_blank(editor)
}

/// The editor where the user names none.
pub const DEFAULT_EDITOR: &'static str = "notepad.exe";

/// The words that open `path` in an editor: `parsed` are the words that the system
/// splits the editor's command line into, where it does.
pub open spec fn editor_words(
    path: Seq<char>,
    editor: Option<Seq<char>>,
    parsed: Option<Seq<Seq<char>>>,
) -> Result<Seq<Seq<char>>, report::ErrorModel> {
    match not_blank(editor) {
        None => Ok(seq![DEFAULT_EDITOR@, path]),
        Some(editor) => match parsed {
            None => Err(
                report::ErrorModel {
                    kind: ErrorKind::InvalidInput,
                    message: "failed to parse editor command "@ + text::debug_form(editor),
                },
            ),
            Some(words) => if words.len() == 0 {
                Err(
                    report::ErrorModel {
                        kind: ErrorKind::InvalidInput,
                        message: "editor command must not be empty"@,
                    },
                )
            } else {
                Ok(words.push(path))
            },
        },
    }
}

/// The words that open `path` in an editor: `parsed` are the words that the system
/// splits the editor's command line into, where it does.
pub fn scrollback_editor_argv_with_env(
    path: &str,
    editor: Option<&str>,
    parsed: Option<Vec<String>>,
) -> (res: Result<Vec<String>, RemoteError>)
    ensures
        report::outcome(res) == editor_words(path@, editor.deep_view(), parsed.deep_view()),
{
    let named = match editor {
        Some(editor) => {
            if trim(editor).as_str().is_empty() {
                None
            } else {
                Some(editor)
            }
        },
        None => None,
    };
    let argv = match named {
        Some(editor) => match parsed {
            Some(argv) => argv,
            None => {
                let mut message = "failed to parse editor command ".to_string();
                message.append(debug_text(editor).as_str());
                return Err(RemoteError { kind: ErrorKind::InvalidInput, message });
            },
        },
        None => {
            let mut argv: Vec<String> = Vec::new();
            argv.push(DEFAULT_EDITOR.to_string());
            assert(argv.deep_view() =~= seq![DEFAULT_EDITOR@]);
            argv
        },
    };
    if argv.len() == 0 {
        return Err(
            RemoteError {
                kind: ErrorKind::InvalidInput,
                message: "editor command must not be empty".to_string(),
            },
        );
    }
    let ghost words = argv.deep_view();
    let mut argv = argv;
    argv.push(path.to_string());
    assert(argv.deep_view() =~= words.push(path@));
    assert(seq![DEFAULT_EDITOR@].push(path@) =~= seq![DEFAULT_EDITOR@, path@]);
    Ok(argv)
}

/// `n` in decimal, with a minus sign where it is negative.
pub open spec fn signed_decimal(n: int) -> Seq<char> {
    if n < 0 {
        "-"@ + text::decimal((-n) as nat)
    } else {
        text::decimal(n as nat)
    }
}

fn signed_decimal_text(n: i64) -> (res: String)
    ensures
        res@ == signed_decimal(n as int),
{
    if n < 0 {
        let mut out = "-".to_string();
        let magnitude: u64 = (-(n as i128)) as u64;
        out.append(decimal_text(magnitude).as_str());
        out
    } else {
        decimal_text(n as u64)
    }
}

/// What opening an address comes to: the system answers with a number above 32 where
/// it opened it.
pub fn open_url(code: isize) -> (res: Result<(), RemoteError>)
    ensures
        report::outcome(res) == (if code > 32 {
            Ok::<(), report::ErrorModel>(())
        } else {
            Err(
                report::plain_error(
                    "failed to open URL with ShellExecuteW: code "@ + signed_decimal(code as int),
                ),
            )
        }),
{
    if code > 32 {
        Ok(())
    } else {
        let mut message = "failed to open URL with ShellExecuteW: code ".to_string();
        message.append(signed_decimal_text(code as i64).as_str());
        Err(RemoteError { kind: ErrorKind::Other, message })
    }
}

/// Desktop notifications are not shown on Windows.
pub fn show_desktop_notification(title: &str, body: Option<&str>) -> (res: Result<
    bool,
    RemoteError,
>)
    ensures
        res == Ok::<bool, RemoteError>(false),
{
    let _ = title;
    let _ = body;
    Ok(false)
}

/// The shell is the one that the system names, and the usual one where it names none or an
/// empty one.
pub proof fn law_named_shell_is_used(comspec: Seq<char>)
    ensures
        comspec.len() > 0 ==> command_shell(Some(comspec)) == comspec,
        comspec.len() == 0 ==> command_shell(Some(comspec)) == command_shell(None),
        command_shell(None) == r"C:\Windows\System32\cmd.exe"@,
{
}

/// An editor that is named by more than white space opens the path as the last of its own
/// words. One that is not leaves the path to the usual editor. A name that cannot be split
/// into words, or has none, is an error about the input.
pub proof fn law_editor_opens_path(
    path: Seq<char>,
    editor: Seq<char>,
    parsed: Option<Seq<Seq<char>>>,
)
    ensures
        text::trimmed(editor).len() == 0 ==> editor_words(path, Some(editor), parsed)
            == editor_words(path, None, parsed),
        editor_words(path, None, parsed) matches Ok(words) && words == seq!["notepad.exe"@, path],
        text::trimmed(editor).len() > 0 ==> match parsed {
            Some(words) => if words.len() > 0 {
                editor_words(path, Some(editor), parsed) matches Ok(argv) && argv.len()
                    == words.len() + 1 && argv.last() == path && argv.take(words.len() as int)
                    == words
            } else {
                editor_words(path, Some(editor), parsed) matches Err(error)
                    && error.kind is InvalidInput
            },
            None => editor_words(path, Some(editor), parsed) matches Err(error)
                && error.kind is InvalidInput && text::ends_in(
                error.message,
                text::debug_form(editor),
            ),
        },
        not_blank(Some(editor)) == (if text::trimmed(editor).len() == 0 {
            None
        } else {
            Some(editor)
        }),
        not_blank(None) is None,
{
    if let Some(words) = parsed {
        assert(words.push(path).take(words.len() as int) =~= words);
    }
    let shown = text::debug_form(editor);
    text::law_begins_and_ends(shown, shown, "failed to parse editor command "@);
}

/// A number is told by the decimal of its magnitude, with a minus sign before it exactly
/// where it is negative.
pub proof fn law_signed_decimal(n: int)
    ensures
        n >= 0 ==> text::number_of_digits(signed_decimal(n)) == n && signed_decimal(n)[0] != '-',
        n < 0 ==> signed_decimal(n)[0] == '-' && text::number_of_digits(signed_decimal(n).skip(1))
            == -n,
{
    reveal_strlit("-");
    if n >= 0 {
        text::law_decimal_reads_back(n as nat);
        assert(48 <= signed_decimal(n)[0] as u32 <= 57);
    } else {
        text::law_decimal_reads_back((-n) as nat);
        assert(signed_decimal(n).skip(1) =~= text::decimal((-n) as nat));
    }
}

} // verus!
