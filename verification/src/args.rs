//! The options of the command line that ask for a remote session.
use crate::shell::quote_line;
use crate::shell;
use crate::text::same_text;
use crate::text::starts_with_char;
use crate::text::strip_prefix;
use crate::text;
use vstd::prelude::*;
use vstd::string::*;

verus! {

/// Whose key bindings a remote session uses.
#[derive(Debug, Clone, Copy, PartialEq, Eq, Structural)]
pub enum RemoteKeybindings {
    /// Those of this client.
    Local,
    /// Those of the server.
    Server,
}

/// What is asked of a remote session.
#[derive(Debug, Clone, PartialEq, Eq)]
pub struct RemoteLaunch {
    /// The ssh destination.
    pub target: String,
    /// Whose key bindings to use.
    pub keybindings: RemoteKeybindings,
    /// Whether a running server may hand its panes over to an updated one.
    pub live_handoff: bool,
}

/// A launch as its text and choices.
#[verifier::ext_equal]
pub struct LaunchModel {
    pub target: Seq<char>,
    pub keybindings: RemoteKeybindings,
    pub live_handoff: bool,
}

impl DeepView for RemoteLaunch {
    type V = LaunchModel;

    open spec fn deep_view(&self) -> LaunchModel {
        LaunchModel {
            target: self.target@,
            keybindings: self.keybindings,
            live_handoff: self.live_handoff,
        }
    }
}

pub const REPEATED_REMOTE: &'static str = "--remote can only be specified once";

pub const MISSING_REMOTE: &'static str = "missing value for --remote";

pub const OPTION_LIKE_TARGET: &'static str = "--remote target must not start with '-'";

pub const REPEATED_KEYBINDINGS: &'static str = "--remote-keybindings can only be specified once";

pub const MISSING_KEYBINDINGS: &'static str = "missing value for --remote-keybindings";

pub const UNKNOWN_KEYBINDINGS: &'static str = "--remote-keybindings must be 'local' or 'server'";

pub const KEYBINDINGS_WITHOUT_REMOTE: &'static str = "--remote-keybindings requires --remote";

/// The key bindings that `value` names.
pub open spec fn keybindings_named(value: Seq<char>) -> Option<RemoteKeybindings> {
    if value == "local"@ {
        Some(RemoteKeybindings::Local)
    } else if value == "server"@ {
        Some(RemoteKeybindings::Server)
    } else {
        None
    }
}

impl RemoteKeybindings {
    /// The name of these key bindings.
    pub open spec fn name(self) -> Seq<char> {
        match self {
            RemoteKeybindings::Local => "local"@,
            RemoteKeybindings::Server => "server"@,
        }
    }

    /// The key bindings that `value` names.
    pub fn parse(value: &str) -> (res: Result<RemoteKeybindings, String>)
        ensures
            match keybindings_named(value@) {
                Some(keybindings) => res == Ok::<RemoteKeybindings, String>(keybindings),
                None => res is Err && res->Err_0@ == UNKNOWN_KEYBINDINGS@,
            },
    {
        if same_text(value, "local") {
            Ok(RemoteKeybindings::Local)
        } else if same_text(value, "server") {
            Ok(RemoteKeybindings::Server)
        } else {
            Err(UNKNOWN_KEYBINDINGS.to_string())
        }
    }

    /// The name of these key bindings.
    pub fn as_str(self) -> (res: &'static str)
        ensures
            res@ == self.name(),
    {
        match self {
            RemoteKeybindings::Local => "local",
            RemoteKeybindings::Server => "server",
        }
    }
}

/// Key bindings are read back from their name.
pub proof fn law_keybindings_name_reads_back(keybindings: RemoteKeybindings)
    ensures
        keybindings_named(keybindings.name()) == Some(keybindings),
{
    reveal_strlit("local");
    reveal_strlit("server");
    assert("local"@[0] != "server"@[0]);
}

/// Why `target` is refused as an ssh destination, if it is: an empty one is none,
/// and one that begins with a dash would be read as an option.
pub open spec fn target_refusal(target: Seq<char>) -> Option<Seq<char>> {
    if target.len() == 0 {
        Some(MISSING_REMOTE@)
    } else if target[0] == '-' {
        Some(OPTION_LIKE_TARGET@)
    } else {
        None
    }
}

/// `target`, where it is not refused as an ssh destination.
pub fn validate_remote_target(target: &str) -> (res: Result<&str, String>)
    ensures
        match target_refusal(target@) {
            Some(message) => res is Err && res->Err_0@ == message,
            None => res is Ok && res->Ok_0@ == target@,
        },
{
    if target.is_empty() {
        return Err(MISSING_REMOTE.to_string());
    }
    if starts_with_char(target, '-') {
        return Err(OPTION_LIKE_TARGET.to_string());
    }
    Ok(target)
}

/// What an argument is read as.
pub enum Token {
    /// The separator behind which arguments are another program's.
    Separator,
    /// The request for a live handoff.
    Handoff,
    /// The option for the destination, with its value in the same argument or not.
    Remote { inline: Option<Seq<char>> },
    /// The option for the key bindings, with its value in the same argument or not.
    Keybindings { inline: Option<Seq<char>> },
    /// Anything else.
    Other,
}

/// What `arg` is read as.
pub open spec fn token_of(arg: Seq<char>) -> Token {
    if arg == "--"@ {
        Token::Separator
    } else if arg == "--handoff"@ {
        Token::Handoff
    } else if arg == "--remote"@ {
        Token::Remote { inline: None }
    } else if text::begins_with(arg, "--remote="@) {
        Token::Remote { inline: Some(arg.skip("--remote="@.len() as int)) }
    } else if arg == "--remote-keybindings"@ {
        Token::Keybindings { inline: None }
    } else if text::begins_with(arg, "--remote-keybindings="@) {
        Token::Keybindings { inline: Some(arg.skip("--remote-keybindings="@.len() as int)) }
    } else {
        Token::Other
    }
}

/// What was read of a command line.
#[verifier::ext_equal]
pub struct Reading {
    /// The arguments that are not about a remote session.
    pub cleaned: Seq<Seq<char>>,
    /// The destination.
    pub target: Option<Seq<char>>,
    /// The key bindings.
    pub keybindings: Option<RemoteKeybindings>,
    /// Whether a live handoff was requested.
    pub live_handoff: bool,
}

/// The value of an option at place `at`: its own, or the argument behind it.
pub open spec fn option_value(
    args: Seq<Seq<char>>,
    at: int,
    inline: Option<Seq<char>>,
) -> Option<Seq<char>> {
    match inline {
        Some(value) => Some(value),
        None => if at + 1 < args.len() {
            Some(args[at + 1])
        } else {
            None
        },
    }
}

/// The number of arguments that an option and its value take.
pub open spec fn option_width(inline: Option<Seq<char>>) -> int {
    if inline is Some {
        1
    } else {
        2
    }
}

/// What is read of `args` from place `at` on, with `reading` read before it, or the
/// message with which the command line is refused.
pub open spec fn read_from(
    args: Seq<Seq<char>>,
    at: int,
    reading: Reading,
) -> Result<Reading, Seq<char>>
    decreases args.len() - at,
{
    if at < 0 || at >= args.len() {
        Ok(reading)
    } else {
        match token_of(args[at]) {
            Token::Separator => Ok(
                Reading { cleaned: reading.cleaned + args.skip(at), ..reading },
            ),
            Token::Handoff => read_from(args, at + 1, Reading { live_handoff: true, ..reading }),
            Token::Remote { inline } => if reading.target is Some {
                Err(REPEATED_REMOTE@)
            } else {
                match option_value(args, at, inline) {
                    None => Err(MISSING_REMOTE@),
                    Some(value) => match target_refusal(value) {
                        Some(message) => Err(message),
                        None => read_from(
                            args,
                            at + option_width(inline),
                            Reading { target: Some(value), ..reading },
                        ),
                    },
                }
            },
            Token::Keybindings { inline } => if reading.keybindings is Some {
                Err(REPEATED_KEYBINDINGS@)
            } else {
                match option_value(args, at, inline) {
                    None => Err(MISSING_KEYBINDINGS@),
                    Some(value) => match keybindings_named(value) {
                        None => Err(UNKNOWN_KEYBINDINGS@),
                        Some(keybindings) => read_from(
                            args,
                            at + option_width(inline),
                            Reading { keybindings: Some(keybindings), ..reading },
                        ),
                    },
                }
            },
            Token::Other => read_from(
                args,
                at + 1,
                Reading { cleaned: reading.cleaned.push(args[at]), ..reading },
            ),
        }
    }
}

/// The reading with which a command line begins: its program and nothing else.
pub open spec fn reading_of_program(args: Seq<Seq<char>>) -> Reading {
    Reading {
        cleaned: if args.len() > 0 {
            seq![args[0]]
        } else {
            Seq::empty()
        },
        target: None,
        keybindings: None,
        live_handoff: false,
    }
}

/// The arguments that are left of a command line and the launch that it asks for,
/// or the message with which it is refused. Without a destination, key bindings are
/// refused and the request for a handoff is left, behind the other arguments.
pub open spec fn extracted(args: Seq<Seq<char>>) -> Result<
    (Seq<Seq<char>>, Option<LaunchModel>),
    Seq<char>,
> {
    match read_from(args, 1, reading_of_program(args)) {
        Err(message) => Err(message),
        Ok(reading) => match reading.target {
            Some(target) => Ok(
                (
                    reading.cleaned,
                    Some(
                        LaunchModel {
                            target,
                            keybindings: match reading.keybindings {
                                Some(keybindings) => keybindings,
                                None => RemoteKeybindings::Local,
                            },
                            live_handoff: reading.live_handoff,
                        },
                    ),
                ),
            ),
            None => if reading.keybindings is Some {
                Err(KEYBINDINGS_WITHOUT_REMOTE@)
            } else if reading.live_handoff {
                Ok((reading.cleaned.push("--handoff"@), None))
            } else {
                Ok((reading.cleaned, None))
            },
        },
    }
}

/// An argument as it is told apart while reading.
enum ReadToken {
    Separator,
    Handoff,
    Remote(Option<String>),
    Keybindings(Option<String>),
    Other,
}

fn read_token(arg: &str) -> (res: ReadToken)
    ensures
        match token_of(arg@) {
            Token::Separator => res is Separator,
            Token::Handoff => res is Handoff,
            Token::Remote { inline } => res matches ReadToken::Remote(value) && value.deep_view()
                == inline,
            Token::Keybindings { inline } => res matches ReadToken::Keybindings(value)
                && value.deep_view() == inline,
            Token::Other => res is Other,
        },
{
    if same_text(arg, "--") {
        return ReadToken::Separator;
    }
    if same_text(arg, "--handoff") {
        return ReadToken::Handoff;
    }
    if same_text(arg, "--remote") {
        return ReadToken::Remote(None);
    }
    if let Some(value) = strip_prefix(arg, "--remote=") {
        return ReadToken::Remote(Some(value));
    }
    if same_text(arg, "--remote-keybindings") {
        return ReadToken::Keybindings(None);
    }
    if let Some(value) = strip_prefix(arg, "--remote-keybindings=") {
        return ReadToken::Keybindings(Some(value));
    }
    ReadToken::Other
}

fn value_at(args: &[String], at: usize, inline: Option<String>) -> (res: Option<String>)
    requires
        at < args@.len(),
    ensures
        res.deep_view() == option_value(args.deep_view(), at as int, inline.deep_view()),
{
    match inline {
        Some(value) => Some(value),
        None => {
            let total: usize = args.len();
            if at + 1 < total {
                assert(args.deep_view()[at + 1] == args@[at + 1]@);
                Some(args[at + 1].clone())
            } else {
                None
            }
        },
    }
}

/// The arguments that are left of `args` and the launch that they ask for.
pub fn extract_remote_args(args: &[String]) -> (res: Result<
    (Vec<String>, Option<RemoteLaunch>),
    String,
>)
    ensures
        match extracted(args.deep_view()) {
            Ok((cleaned, launch)) => res is Ok && res->Ok_0.0.deep_view() == cleaned
                && res->Ok_0.1.deep_view() == launch,
            Err(message) => res is Err && res->Err_0@ == message,
        },
{
    let ghost words = args.deep_view();
    let mut cleaned: Vec<String> = Vec::new();
    let mut target: Option<String> = None;
    let mut keybindings: Option<RemoteKeybindings> = None;
    let mut live_handoff = false;
    if args.len() > 0 {
        cleaned.push(args[0].clone());
    }
    let ghost reading = reading_of_program(words);
    assert(cleaned.deep_view() =~= reading.cleaned);
    let mut index: usize = 1;
    while index < args.len()
        invariant_except_break
            read_from(words, 1, reading_of_program(words)) == read_from(
                words,
                index as int,
                reading,
            ),
        invariant
            words == args.deep_view(),
            words.len() == args@.len(),
            1 <= index,
            reading.cleaned == cleaned.deep_view(),
            reading.target == target.deep_view(),
            reading.keybindings == keybindings,
            reading.live_handoff == live_handoff,
        ensures
            read_from(words, 1, reading_of_program(words)) == Ok::<Reading, Seq<char>>(reading),
        decreases args@.len() - index,
    {
        assert(words[index as int] == args@[index as int]@);
        match read_token(args[index].as_str()) {
            ReadToken::Separator => {
                let ghost before = cleaned.deep_view();
                let mut i: usize = index;
                assert(before + words.subrange(index as int, index as int) =~= before);
                while i < args.len()
                    invariant
                        words == args.deep_view(),
                        words.len() == args@.len(),
                        index <= i <= args@.len(),
                        cleaned.deep_view() == before + words.subrange(index as int, i as int),
                    decreases args@.len() - i,
                {
                    let ghost kept = cleaned.deep_view();
                    cleaned.push(args[i].clone());
                    assert(words[i as int] == args@[i as int]@);
                    assert(cleaned.deep_view() =~= kept.push(words[i as int]));
                    assert(kept.push(words[i as int]) =~= before + words.subrange(
                        index as int,
                        i + 1,
                    ));
                    i = i + 1;
                }
                proof {
                    assert(words.subrange(index as int, words.len() as int) =~= words.skip(
                        index as int,
                    ));
                    reading = Reading { cleaned: before + words.skip(index as int), ..reading };
                }
                break;
            },
            ReadToken::Handoff => {
                live_handoff = true;
                proof {
                    reading = Reading { live_handoff: true, ..reading };
                }
                index = index + 1;
            },
            ReadToken::Remote(inline) => {
                if target.is_some() {
                    return Err(REPEATED_REMOTE.to_string());
                }
                let width: usize = if inline.is_some() {
                    1
                } else {
                    2
                };
                let value = match value_at(args, index, inline) {
                    Some(value) => value,
                    None => return Err(MISSING_REMOTE.to_string()),
                };
                if let Err(message) = validate_remote_target(value.as_str()) {
                    return Err(message);
                }
                proof {
                    reading = Reading { target: Some(value@), ..reading };
                }
                target = Some(value);
                index = index + width;
            },
            ReadToken::Keybindings(inline) => {
                if keybindings.is_some() {
                    return Err(REPEATED_KEYBINDINGS.to_string());
                }
                let width: usize = if inline.is_some() {
                    1
                } else {
                    2
                };
                let value = match value_at(args, index, inline) {
                    Some(value) => value,
                    None => return Err(MISSING_KEYBINDINGS.to_string()),
                };
                match RemoteKeybindings::parse(value.as_str()) {
                    Ok(named) => {
                        keybindings = Some(named);
                        proof {
                            reading = Reading { keybindings: Some(named), ..reading };
                        }
                    },
                    Err(message) => return Err(message),
                }
                index = index + width;
            },
            ReadToken::Other => {
                let ghost before = cleaned.deep_view();
                cleaned.push(args[index].clone());
                proof {
                    assert(cleaned.deep_view() =~= before.push(words[index as int]));
                    reading = Reading { cleaned: cleaned.deep_view(), ..reading };
                }
                index = index + 1;
            },
        }
    }
    match target {
        Some(target) => Ok(
            (
                cleaned,
                Some(
                    RemoteLaunch {
                        target,
                        keybindings: match keybindings {
                            Some(keybindings) => keybindings,
                            None => RemoteKeybindings::Local,
                        },
                        live_handoff,
                    },
                ),
            ),
        ),
        None => {
            if keybindings.is_some() {
                return Err(KEYBINDINGS_WITHOUT_REMOTE.to_string());
            }
            if live_handoff {
                let ghost before = cleaned.deep_view();
                cleaned.push("--handoff".to_string());
                assert(cleaned.deep_view() =~= before.push("--handoff"@));
            }
            Ok((cleaned, None))
        },
    }
}

/// The arguments that follow the program in a command line.
pub open spec fn behind_program(args: Seq<Seq<char>>) -> Seq<Seq<char>> {
    if args.len() > 0 {
        args.skip(1)
    } else {
        args
    }
}

/// Whether `words` holds nothing about a remote session up to its first separator.
pub open spec fn settled(words: Seq<Seq<char>>) -> bool
    decreases words.len(),
{
    words.len() > 0 ==> match token_of(words[0]) {
        Token::Separator => true,
        Token::Other => settled(words.drop_first()),
        _ => false,
    }
}

/// Whether `words` holds a separator.
pub open spec fn separated(words: Seq<Seq<char>>) -> bool
    decreases words.len(),
{
    words.len() > 0 && (token_of(words[0]) is Separator || separated(words.drop_first()))
}

/// What a reading adds to the arguments that are left is settled.
proof fn lemma_read_keeps_settled(args: Seq<Seq<char>>, at: int, reading: Reading) -> (rest: Seq<
    Seq<char>,
>)
    requires
        0 <= at,
        read_from(args, at, reading) is Ok,
    ensures
        settled(rest),
        read_from(args, at, reading)->Ok_0.cleaned == reading.cleaned + rest,
    decreases args.len() - at,
{
    if at >= args.len() {
        assert(reading.cleaned + Seq::<Seq<char>>::empty() =~= reading.cleaned);
        Seq::empty()
    } else {
        match token_of(args[at]) {
            Token::Separator => {
                assert(args.skip(at)[0] == args[at]);
                args.skip(at)
            },
            Token::Handoff => lemma_read_keeps_settled(
                args,
                at + 1,
                Reading { live_handoff: true, ..reading },
            ),
            Token::Remote { inline } => {
                let value = option_value(args, at, inline)->Some_0;
                lemma_read_keeps_settled(
                    args,
                    at + option_width(inline),
                    Reading { target: Some(value), ..reading },
                )
            },
            Token::Keybindings { inline } => {
                let value = option_value(args, at, inline)->Some_0;
                lemma_read_keeps_settled(
                    args,
                    at + option_width(inline),
                    Reading { keybindings: keybindings_named(value), ..reading },
                )
            },
            Token::Other => {
                let next = Reading { cleaned: reading.cleaned.push(args[at]), ..reading };
                let rest = lemma_read_keeps_settled(args, at + 1, next);
                let all = seq![args[at]] + rest;
                assert(all.drop_first() =~= rest);
                assert(next.cleaned + rest =~= reading.cleaned + all);
                all
            },
        }
    }
}

/// A settled command line is read as it stands.
proof fn lemma_read_settled(args: Seq<Seq<char>>, at: int, reading: Reading)
    requires
        0 <= at <= args.len(),
        settled(args.skip(at)),
    ensures
        read_from(args, at, reading) == Ok::<Reading, Seq<char>>(
            Reading { cleaned: reading.cleaned + args.skip(at), ..reading },
        ),
    decreases args.len() - at,
{
    if at == args.len() {
        assert(reading.cleaned + args.skip(at) =~= reading.cleaned);
    } else {
        assert(args.skip(at)[0] == args[at]);
        assert(args.skip(at).drop_first() =~= args.skip(at + 1));
        if token_of(args[at]) is Other {
            let next = Reading { cleaned: reading.cleaned.push(args[at]), ..reading };
            lemma_read_settled(args, at + 1, next);
            assert(next.cleaned + args.skip(at + 1) =~= reading.cleaned + args.skip(at));
        }
    }
}

/// A request for a handoff at the end of a settled command line without a separator
/// is read as one.
proof fn lemma_read_settled_handoff(args: Seq<Seq<char>>, at: int, reading: Reading)
    requires
        0 <= at <= args.len(),
        settled(args.skip(at)),
        !separated(args.skip(at)),
    ensures
        read_from(args.push("--handoff"@), at, reading) == Ok::<Reading, Seq<char>>(
            Reading {
                cleaned: reading.cleaned + args.skip(at),
                live_handoff: true,
                ..reading
            },
        ),
    decreases args.len() - at,
{
    let longer = args.push("--handoff"@);
    if at == args.len() {
        lemma_handoff_token();
        assert(reading.cleaned + args.skip(at) =~= reading.cleaned);
        assert(read_from(longer, at + 1, Reading { live_handoff: true, ..reading }) == Ok::<
            Reading,
            Seq<char>,
        >(Reading { live_handoff: true, ..reading }));
    } else {
        assert(args.skip(at)[0] == args[at]);
        assert(longer[at] == args[at]);
        assert(args.skip(at).drop_first() =~= args.skip(at + 1));
        let next = Reading { cleaned: reading.cleaned.push(args[at]), ..reading };
        lemma_read_settled_handoff(args, at + 1, next);
        assert(next.cleaned + args.skip(at + 1) =~= reading.cleaned + args.skip(at));
    }
}

proof fn lemma_handoff_token()
    ensures
        token_of("--handoff"@) is Handoff,
{
    reveal_strlit("--handoff");
    reveal_strlit("--");
    assert("--"@.len() != "--handoff"@.len());
}

/// What stands behind a separator, or is appended to words that hold one, stays
/// settled.
proof fn lemma_settled_append(words: Seq<Seq<char>>, word: Seq<char>)
    requires
        settled(words),
        separated(words),
    ensures
        settled(words.push(word)),
    decreases words.len(),
{
    let longer = words.push(word);
    assert(longer[0] == words[0]);
    if token_of(words[0]) is Other {
        lemma_settled_append(words.drop_first(), word);
        assert(longer.drop_first() =~= words.drop_first().push(word));
    }
}

/// What was read before a separator does not depend on what follows it, and what
/// follows it is left as it stands.
proof fn lemma_read_up_to_separator(
    front: Seq<Seq<char>>,
    tail: Seq<Seq<char>>,
    at: int,
    reading: Reading,
)
    requires
        0 <= at <= front.len(),
        tail.len() > 0,
        token_of(tail[0]) is Separator,
        read_from(front, at, reading) is Ok,
    ensures
        read_from(front + tail, at, reading) == Ok::<Reading, Seq<char>>(
            Reading {
                cleaned: read_from(front, at, reading)->Ok_0.cleaned + tail,
                ..read_from(front, at, reading)->Ok_0
            },
        ),
    decreases front.len() - at,
{
    let whole = front + tail;
    if at == front.len() {
        assert(whole[at] == tail[0]);
        assert(whole.skip(at) =~= tail);
    } else {
        assert(whole[at] == front[at]);
        match token_of(front[at]) {
            Token::Separator => {
                assert(reading.cleaned + whole.skip(at) =~= reading.cleaned + front.skip(at)
                    + tail);
            },
            Token::Handoff => {
                lemma_read_up_to_separator(
                    front,
                    tail,
                    at + 1,
                    Reading { live_handoff: true, ..reading },
                );
            },
            Token::Remote { inline } => {
                let value = option_value(front, at, inline);
                assert(option_value(whole, at, inline) == value);
                lemma_read_up_to_separator(
                    front,
                    tail,
                    at + option_width(inline),
                    Reading { target: value, ..reading },
                );
            },
            Token::Keybindings { inline } => {
                let value = option_value(front, at, inline);
                assert(option_value(whole, at, inline) == value);
                lemma_read_up_to_separator(
                    front,
                    tail,
                    at + option_width(inline),
                    Reading { keybindings: keybindings_named(value->Some_0), ..reading },
                );
            },
            Token::Other => {
                lemma_read_up_to_separator(
                    front,
                    tail,
                    at + 1,
                    Reading { cleaned: reading.cleaned.push(front[at]), ..reading },
                );
            },
        }
    }
}

proof fn lemma_read_target(args: Seq<Seq<char>>, at: int, reading: Reading)
    requires
        0 <= at,
        reading.target matches Some(target) ==> target_refusal(target) is None,
    ensures
        read_from(args, at, reading) matches Ok(read) ==> (read.target matches Some(target)
            ==> target_refusal(target) is None),
    decreases args.len() - at,
{
    if at < args.len() {
        match token_of(args[at]) {
            Token::Separator => {},
            Token::Handoff => {
                lemma_read_target(args, at + 1, Reading { live_handoff: true, ..reading });
            },
            Token::Remote { inline } => {
                let value = option_value(args, at, inline);
                if value is Some && target_refusal(value->Some_0) is None {
                    lemma_read_target(
                        args,
                        at + option_width(inline),
                        Reading { target: value, ..reading },
                    );
                }
            },
            Token::Keybindings { inline } => {
                let value = option_value(args, at, inline);
                if value is Some {
                    lemma_read_target(
                        args,
                        at + option_width(inline),
                        Reading { keybindings: keybindings_named(value->Some_0), ..reading },
                    );
                }
            },
            Token::Other => {
                lemma_read_target(
                    args,
                    at + 1,
                    Reading { cleaned: reading.cleaned.push(args[at]), ..reading },
                );
            },
        }
    }
}

/// A command line that says nothing about a remote session is left as it is.
pub proof fn law_plain_args_are_kept(args: Seq<Seq<char>>)
    requires
        settled(behind_program(args)),
    ensures
        extracted(args) == Ok::<(Seq<Seq<char>>, Option<LaunchModel>), Seq<char>>((args, None)),
{
    let start = reading_of_program(args);
    if args.len() > 0 {
        lemma_read_settled(args, 1, start);
        assert(start.cleaned + args.skip(1) =~= args);
    } else {
        assert(args =~= Seq::<Seq<char>>::empty());
    }
}

/// The arguments that are left ask for nothing more: they are left again, and ask
/// for no launch.
pub proof fn law_extraction_settles(args: Seq<Seq<char>>)
    requires
        extracted(args) is Ok,
    ensures
        extracted(extracted(args)->Ok_0.0) == Ok::<
            (Seq<Seq<char>>, Option<LaunchModel>),
            Seq<char>,
        >((extracted(args)->Ok_0.0, None)),
{
    let start = reading_of_program(args);
    let left = extracted(args)->Ok_0.0;
    if args.len() == 0 {
        assert(left =~= args);
    } else {
        let read = read_from(args, 1, start)->Ok_0;
        let rest = lemma_read_keeps_settled(args, 1, start);
        let cleaned = read.cleaned;
        assert(cleaned.skip(1) =~= rest);
        assert(cleaned[0] == args[0]);
        if read.target is None && read.live_handoff {
            assert(left == cleaned.push("--handoff"@));
            if separated(rest) {
                lemma_settled_append(rest, "--handoff"@);
                assert(left.skip(1) =~= rest.push("--handoff"@));
                law_plain_args_are_kept(left);
            } else {
                let again = reading_of_program(left);
                assert(again.cleaned =~= seq![args[0]]);
                lemma_read_settled_handoff(cleaned, 1, again);
                assert(again.cleaned + cleaned.skip(1) =~= cleaned);
            }
        } else {
            law_plain_args_are_kept(left);
        }
    }
}

/// What stands behind a separator is another program's: a launch that is asked for
/// before it is the same whatever follows, and what follows is left as it stands.
pub proof fn law_separator_ends_options(
    front: Seq<Seq<char>>,
    tail: Seq<Seq<char>>,
    cleaned: Seq<Seq<char>>,
    launch: LaunchModel,
)
    requires
        extracted(front) == Ok::<(Seq<Seq<char>>, Option<LaunchModel>), Seq<char>>(
            (cleaned, Some(launch)),
        ),
    ensures
        extracted(front + (seq!["--"@] + tail)) == Ok::<
            (Seq<Seq<char>>, Option<LaunchModel>),
            Seq<char>,
        >((cleaned + (seq!["--"@] + tail), Some(launch))),
{
    let behind = seq!["--"@] + tail;
    let whole = front + behind;
    let start = reading_of_program(front);
    if front.len() == 0 {
        assert(read_from(front, 1, start) == Ok::<Reading, Seq<char>>(start));
    } else {
        assert(reading_of_program(whole).cleaned =~= start.cleaned);
        assert(behind[0] == "--"@);
        lemma_read_up_to_separator(front, behind, 1, start);
    }
}

/// A command line that asks for no launch before a separator asks for none behind it
/// either. What follows the separator is left as it stands, and only a request for a
/// handoff goes behind it.
pub proof fn law_separator_without_launch(front: Seq<Seq<char>>, tail: Seq<Seq<char>>)
    requires
        front.len() > 0,
        extracted(front) matches Ok((_, None)),
    ensures
        ({
            let read = read_from(front, 1, reading_of_program(front))->Ok_0;
            let left = read.cleaned + (seq!["--"@] + tail);
            extracted(front + (seq!["--"@] + tail)) == Ok::<
                (Seq<Seq<char>>, Option<LaunchModel>),
                Seq<char>,
            >(
                (
                    if read.live_handoff {
                        left.push("--handoff"@)
                    } else {
                        left
                    },
                    None,
                ),
            )
        }),
{
    let behind = seq!["--"@] + tail;
    let whole = front + behind;
    let start = reading_of_program(front);
    assert(reading_of_program(whole).cleaned =~= start.cleaned);
    assert(behind[0] == "--"@);
    lemma_read_up_to_separator(front, behind, 1, start);
}

/// The destination of a launch is not empty and would not be read as an option.
pub proof fn law_launch_target_is_no_option(args: Seq<Seq<char>>)
    ensures
        extracted(args) matches Ok((_, Some(launch))) ==> launch.target.len() > 0
            && launch.target[0] != '-',
{
    lemma_read_target(args, 1, reading_of_program(args));
}

/// The program that a command line names: `program`, and this one's usual name where
/// that is empty.
pub open spec fn program_or_usual(program: Seq<char>) -> Seq<char> {
    if program.len() == 0 {
        "herdr"@
    } else {
        program
    }
}

/// The words of the command that attaches to a remote session again.
pub open spec fn reattach_words(
    program: Seq<char>,
    launch: LaunchModel,
    session_name: Seq<char>,
    default_session: Seq<char>,
) -> Seq<Seq<char>> {
    seq![program_or_usual(program), "--remote"@, launch.target] + (if launch.keybindings is Local {
        Seq::empty()
    } else {
        seq!["--remote-keybindings"@, launch.keybindings.name()]
    }) + (if launch.live_handoff {
        seq!["--handoff"@]
    } else {
        Seq::empty()
    }) + session_words(session_name, default_session)
}

/// The words that name a session, which the default session does without.
pub open spec fn session_words(session_name: Seq<char>, default_session: Seq<char>) -> Seq<
    Seq<char>,
> {
    if session_name == default_session {
        Seq::empty()
    } else {
        seq!["--session"@, session_name]
    }
}

/// The command that attaches to a remote session again.
pub fn reattach_command(
    program: &str,
    target: &str,
    session_name: &str,
    default_session: &str,
    keybindings: RemoteKeybindings,
    live_handoff: bool,
) -> (res: String)
    ensures
        res@ == shell::quoted_line(
            reattach_words(
                program@,
                LaunchModel { target: target@, keybindings, live_handoff },
                session_name@,
                default_session@,
            ),
        ),
{
    let mut words: Vec<String> = Vec::new();
    if program.is_empty() {
        words.push("herdr".to_string());
    } else {
        words.push(program.to_string());
    }
    words.push("--remote".to_string());
    words.push(target.to_string());
    if let RemoteKeybindings::Server = keybindings {
        words.push("--remote-keybindings".to_string());
        words.push(keybindings.as_str().to_string());
    }
    if live_handoff {
        words.push("--handoff".to_string());
    }
    if !same_text(session_name, default_session) {
        words.push("--session".to_string());
        words.push(session_name.to_string());
    }
    let ghost launch = LaunchModel { target: target@, keybindings, live_handoff };
    assert(words.deep_view() =~= reattach_words(
        program@,
        launch,
        session_name@,
        default_session@,
    ));
    quote_line(words.as_slice())
}

proof fn lemma_option_tokens()
    ensures
        token_of("--remote"@) == (Token::Remote { inline: None }),
        token_of("--remote-keybindings"@) == (Token::Keybindings { inline: None }),
        token_of("--handoff"@) is Handoff,
        token_of("--session"@) is Other,
{
    reveal_strlit("--");
    reveal_strlit("--handoff");
    reveal_strlit("--remote");
    reveal_strlit("--remote=");
    reveal_strlit("--remote-keybindings");
    reveal_strlit("--remote-keybindings=");
    reveal_strlit("--session");
    lemma_handoff_token();
    assert("--remote"@.len() == 8);
    assert("--"@.len() == 2);
    assert("--handoff"@.len() == 9);
    let keybindings = "--remote-keybindings"@;
    assert(keybindings.len() == 20);
    assert(keybindings.take(9)[8] == '-');
    assert("--remote="@[8] == '=');
    let session = "--session"@;
    assert(session[2] == 's');
    assert("--handoff"@[2] == 'h');
    assert(session.take(9)[2] == 's');
    assert("--remote="@[2] == 'r');
    assert(session.len() == 9);
    assert("--remote-keybindings="@.len() == 21);
}

proof fn lemma_read_session(
    args: Seq<Seq<char>>,
    at: int,
    reading: Reading,
    session_name: Seq<char>,
    default_session: Seq<char>,
)
    requires
        0 <= at <= args.len(),
        args.skip(at) == session_words(session_name, default_session),
        session_name != default_session ==> settled(seq![session_name]),
    ensures
        read_from(args, at, reading) == Ok::<Reading, Seq<char>>(
            Reading {
                cleaned: reading.cleaned + session_words(session_name, default_session),
                ..reading
            },
        ),
{
    lemma_option_tokens();
    let rest = args.skip(at);
    if session_name != default_session {
        assert(rest.drop_first() =~= seq![session_name]);
    }
    lemma_read_settled(args, at, reading);
}

/// The command that attaches again is read by a shell as words that ask for the same
/// launch, and what is left of them is the program and the name of the session.
pub proof fn law_reattach_command_reads_back(
    program: Seq<char>,
    launch: LaunchModel,
    session_name: Seq<char>,
    default_session: Seq<char>,
)
    requires
        target_refusal(launch.target) is None,
        session_name != default_session ==> settled(seq![session_name]),
    ensures
        ({
            let words = reattach_words(program, launch, session_name, default_session);
            &&& shell::shell_words(shell::quoted_line(words), None, false) == Some(words)
            &&& extracted(words) == Ok::<(Seq<Seq<char>>, Option<LaunchModel>), Seq<char>>(
                (
                    seq![program_or_usual(program)] + session_words(session_name, default_session),
                    Some(launch),
                ),
            )
        }),
{
    let words = reattach_words(program, launch, session_name, default_session);
    let named = session_words(session_name, default_session);
    shell::law_quoted_line_reads_back(words);
    lemma_option_tokens();
    law_keybindings_name_reads_back(launch.keybindings);
    let start = reading_of_program(words);
    assert(start.cleaned =~= seq![program_or_usual(program)]);
    let targeted = Reading { target: Some(launch.target), ..start };
    assert(words[1] == "--remote"@ && words[2] == launch.target);
    assert(read_from(words, 1, start) == read_from(words, 3, targeted));
    let bound = if launch.keybindings is Local {
        targeted
    } else {
        Reading { keybindings: Some(launch.keybindings), ..targeted }
    };
    let next: int = if launch.keybindings is Local {
        3
    } else {
        5
    };
    if !(launch.keybindings is Local) {
        assert(words[3] == "--remote-keybindings"@ && words[4] == launch.keybindings.name());
    }
    assert(read_from(words, 3, targeted) == read_from(words, next, bound));
    let asked = if launch.live_handoff {
        Reading { live_handoff: true, ..bound }
    } else {
        bound
    };
    let last: int = if launch.live_handoff {
        next + 1
    } else {
        next
    };
    if launch.live_handoff {
        assert(words[next] == "--handoff"@);
    }
    assert(read_from(words, next, bound) == read_from(words, last, asked));
    assert(words.skip(last) =~= named);
    lemma_read_session(words, last, asked, session_name, default_session);
}

/// A part of a command line behind the program.
pub enum Piece {
    /// An argument that is not about a remote session.
    Plain(Seq<char>),
    /// The request for a live handoff.
    Handoff,
    /// The option for the destination, with its value in the same argument or in the next.
    Remote { value: Seq<char>, inline: bool },
    /// The option for the key bindings, with its value in the same argument or in the next.
    Keybindings { value: RemoteKeybindings, inline: bool },
}

/// Whether a part is one that a command line may hold: an argument is plain where it is
/// neither the separator nor one of the options, and a destination is not empty and does
/// not begin with a dash.
pub open spec fn piece_allowed(piece: Piece) -> bool {
    match piece {
        Piece::Plain(word) => {
            &&& word != "--"@
            &&& word != "--handoff"@
            &&& word != "--remote"@
            &&& word != "--remote-keybindings"@
            &&& !text::begins_with(word, "--remote="@)
            &&& !text::begins_with(word, "--remote-keybindings="@)
        },
        Piece::Remote { value, .. } => value.len() > 0 && value[0] != '-',
        _ => true,
    }
}

/// The arguments that a part consists of.
pub open spec fn piece_words(piece: Piece) -> Seq<Seq<char>> {
    match piece {
        Piece::Plain(word) => seq![word],
        Piece::Handoff => seq!["--handoff"@],
        Piece::Remote { value, inline } => if inline {
            seq!["--remote="@ + value]
        } else {
            seq!["--remote"@, value]
        },
        Piece::Keybindings { value, inline } => {
            let name = if value is Local {
                "local"@
            } else {
                "server"@
            };
            if inline {
                seq!["--remote-keybindings="@ + name]
            } else {
                seq!["--remote-keybindings"@, name]
            }
        },
    }
}

/// The arguments that parts consist of, in order.
pub open spec fn words_of(pieces: Seq<Piece>) -> Seq<Seq<char>>
    decreases pieces.len(),
{
    if pieces.len() == 0 {
        Seq::empty()
    } else {
        piece_words(pieces[0]) + words_of(pieces.drop_first())
    }
}

/// The plain arguments among parts, in order.
pub open spec fn plain_words(pieces: Seq<Piece>) -> Seq<Seq<char>>
    decreases pieces.len(),
{
    if pieces.len() == 0 {
        Seq::empty()
    } else {
        (match pieces[0] {
            Piece::Plain(word) => seq![word],
            _ => Seq::empty(),
        }) + plain_words(pieces.drop_first())
    }
}

/// Whether one of the parts asks for a handoff.
pub open spec fn asks_for_handoff(pieces: Seq<Piece>) -> bool {
    exists|i: int| 0 <= i < pieces.len() && #[trigger] pieces[i] is Handoff
}

/// Whether one of the parts names a destination.
pub open spec fn names_remote(pieces: Seq<Piece>) -> bool {
    exists|i: int| 0 <= i < pieces.len() && #[trigger] pieces[i] is Remote
}

/// Whether one of the parts names key bindings.
pub open spec fn names_keybindings(pieces: Seq<Piece>) -> bool {
    exists|i: int| 0 <= i < pieces.len() && #[trigger] pieces[i] is Keybindings
}

/// Whether no two of the parts name a destination, and no two key bindings.
pub open spec fn no_option_twice(pieces: Seq<Piece>) -> bool {
    forall|i: int, j: int|
        0 <= i < j < pieces.len() ==> !(#[trigger] pieces[i] is Remote
            && #[trigger] pieces[j] is Remote) && !(pieces[i] is Keybindings
            && pieces[j] is Keybindings)
}

/// Whether what follows the parts of a command line is nothing, or begins with the separator.
pub open spec fn other_program(tail: Seq<Seq<char>>) -> bool {
    tail.len() > 0 ==> tail[0] == "--"@
}

/// What parts add to a reading.
spec fn reading_with(reading: Reading, pieces: Seq<Piece>) -> Reading {
    Reading {
        cleaned: reading.cleaned + plain_words(pieces),
        target: if names_remote(pieces) {
            let at = choose|i: int| 0 <= i < pieces.len() && #[trigger] pieces[i] is Remote;
            Some(pieces[at]->Remote_value)
        } else {
            reading.target
        },
        keybindings: if names_keybindings(pieces) {
            let at = choose|i: int| 0 <= i < pieces.len() && #[trigger] pieces[i] is Keybindings;
            Some(pieces[at]->Keybindings_value)
        } else {
            reading.keybindings
        },
        live_handoff: reading.live_handoff || asks_for_handoff(pieces),
    }
}

proof fn lemma_inline_tokens(value: Seq<char>)
    ensures
        token_of("--remote="@ + value) == (Token::Remote { inline: Some(value) }),
        token_of("--remote-keybindings="@ + value) == (Token::Keybindings { inline: Some(value) }),
{
    reveal_strlit("--");
    reveal_strlit("--handoff");
    reveal_strlit("--remote");
    reveal_strlit("--remote=");
    reveal_strlit("--remote-keybindings");
    reveal_strlit("--remote-keybindings=");
    let remote = "--remote="@;
    let keys = "--remote-keybindings="@;
    let one = remote + value;
    let other = keys + value;
    assert(remote.len() == 9 && keys.len() == 21);
    assert("--"@.len() == 2 && "--handoff"@.len() == 9 && "--remote"@.len() == 8);
    assert(one[2] == remote[2] && other[2] == keys[2]);
    assert("--handoff"@[2] == 'h');
    assert(one.take(9) =~= remote);
    assert(one.skip(9) =~= value);
    assert(other[8] == keys[8] && keys[8] == '-');
    assert(other.take(9)[8] == '-');
    assert(remote[8] == '=');
    assert("--remote-keybindings"@.len() == 20);
    assert(other.take(21) =~= keys);
    assert(other.skip(21) =~= value);
}

/// Reading one part reads on behind it.
proof fn lemma_read_piece(args: Seq<Seq<char>>, at: int, reading: Reading, piece: Piece)
    requires
        0 <= at,
        at + piece_words(piece).len() <= args.len(),
        args.subrange(at, at + piece_words(piece).len()) == piece_words(piece),
        piece_allowed(piece),
        piece is Remote ==> reading.target is None,
        piece is Keybindings ==> reading.keybindings is None,
    ensures
        read_from(args, at, reading) == read_from(
            args,
            at + piece_words(piece).len(),
            match piece {
                Piece::Plain(word) => Reading { cleaned: reading.cleaned.push(word), ..reading },
                Piece::Handoff => Reading { live_handoff: true, ..reading },
                Piece::Remote { value, .. } => Reading { target: Some(value), ..reading },
                Piece::Keybindings { value, .. } => Reading {
                    keybindings: Some(value),
                    ..reading
                },
            },
        ),
{
    lemma_option_tokens();
    let words = piece_words(piece);
    let here = args.subrange(at, at + words.len());
    assert(here[0] == args[at]);
    match piece {
        Piece::Plain(word) => {
            assert(args[at] == word);
        },
        Piece::Handoff => {},
        Piece::Remote { value, inline } => {
            lemma_inline_tokens(value);
            if !inline {
                assert(here[1] == args[at + 1]);
            }
        },
        Piece::Keybindings { value, inline } => {
            let name = if value is Local {
                "local"@
            } else {
                "server"@
            };
            lemma_inline_tokens(name);
            law_keybindings_name_reads_back(value);
            assert(name == value.name());
            if !inline {
                assert(here[1] == args[at + 1]);
            }
        },
    }
}

/// What the first of several parts adds to a reading, and then the others, is what all of
/// them add.
proof fn lemma_reading_with_first(reading: Reading, pieces: Seq<Piece>)
    requires
        pieces.len() > 0,
        no_option_twice(pieces),
    ensures
        ({
            let first = match pieces[0] {
                Piece::Plain(word) => Reading { cleaned: reading.cleaned.push(word), ..reading },
                Piece::Handoff => Reading { live_handoff: true, ..reading },
                Piece::Remote { value, .. } => Reading { target: Some(value), ..reading },
                Piece::Keybindings { value, .. } => Reading {
                    keybindings: Some(value),
                    ..reading
                },
            };
            reading_with(first, pieces.drop_first()) == reading_with(reading, pieces)
        }),
        no_option_twice(pieces.drop_first()),
        pieces[0] is Remote ==> !names_remote(pieces.drop_first()),
        pieces[0] is Keybindings ==> !names_keybindings(pieces.drop_first()),
        names_remote(pieces.drop_first()) ==> names_remote(pieces),
        names_keybindings(pieces.drop_first()) ==> names_keybindings(pieces),
{
    let rest = pieces.drop_first();
    assert forall|i: int| 0 <= i < rest.len() implies rest[i] == pieces[i + 1] by {}
    assert forall|i: int, j: int| 0 <= i < j < rest.len() implies !(#[trigger] rest[i] is Remote
        && #[trigger] rest[j] is Remote) && !(rest[i] is Keybindings && rest[j] is Keybindings) by {
        assert(rest[i] == pieces[i + 1] && rest[j] == pieces[j + 1]);
    }
    if names_remote(rest) {
        let i = choose|i: int| 0 <= i < rest.len() && #[trigger] rest[i] is Remote;
        assert(pieces[i + 1] is Remote);
        let at = choose|i: int| 0 <= i < pieces.len() && #[trigger] pieces[i] is Remote;
        assert(at == i + 1);
    } else if names_remote(pieces) {
        let at = choose|i: int| 0 <= i < pieces.len() && #[trigger] pieces[i] is Remote;
        if at > 0 {
            assert(rest[at - 1] is Remote);
        }
    }
    if pieces[0] is Remote {
        assert(names_remote(pieces));
    }
    if names_keybindings(rest) {
        let i = choose|i: int| 0 <= i < rest.len() && #[trigger] rest[i] is Keybindings;
        assert(pieces[i + 1] is Keybindings);
        let at = choose|i: int| 0 <= i < pieces.len() && #[trigger] pieces[i] is Keybindings;
        assert(at == i + 1);
    } else if names_keybindings(pieces) {
        let at = choose|i: int| 0 <= i < pieces.len() && #[trigger] pieces[i] is Keybindings;
        if at > 0 {
            assert(rest[at - 1] is Keybindings);
        }
    }
    if pieces[0] is Keybindings {
        assert(names_keybindings(pieces));
    }
    if asks_for_handoff(rest) {
        let i = choose|i: int| 0 <= i < rest.len() && #[trigger] rest[i] is Handoff;
        assert(pieces[i + 1] is Handoff);
    } else if asks_for_handoff(pieces) {
        let at = choose|i: int| 0 <= i < pieces.len() && #[trigger] pieces[i] is Handoff;
        if at > 0 {
            assert(rest[at - 1] is Handoff);
        }
    }
    if pieces[0] is Handoff {
        assert(asks_for_handoff(pieces));
    }
    if let Piece::Plain(word) = pieces[0] {
        assert(reading.cleaned.push(word) + plain_words(rest) =~= reading.cleaned + plain_words(
            pieces,
        ));
    } else {
        assert(Seq::<Seq<char>>::empty() + plain_words(rest) =~= plain_words(rest));
    }
}

/// Reading parts reads on behind them.
proof fn lemma_read_pieces(
    args: Seq<Seq<char>>,
    at: int,
    reading: Reading,
    pieces: Seq<Piece>,
    tail: Seq<Seq<char>>,
)
    requires
        0 <= at <= args.len(),
        args.skip(at) == words_of(pieces) + tail,
        forall|i: int| 0 <= i < pieces.len() ==> piece_allowed(#[trigger] pieces[i]),
        no_option_twice(pieces),
        names_remote(pieces) ==> reading.target is None,
        names_keybindings(pieces) ==> reading.keybindings is None,
    ensures
        read_from(args, at, reading) == read_from(
            args,
            at + words_of(pieces).len(),
            reading_with(reading, pieces),
        ),
    decreases pieces.len(),
{
    if pieces.len() == 0 {
        assert(reading.cleaned + plain_words(pieces) =~= reading.cleaned);
        assert(reading_with(reading, pieces) == reading);
    } else {
        let rest = pieces.drop_first();
        let words = piece_words(pieces[0]);
        let next = at + words.len();
        assert(args.skip(at).len() == words.len() + words_of(rest).len() + tail.len());
        assert(args.subrange(at, next) =~= args.skip(at).take(words.len() as int));
        assert(args.skip(at).take(words.len() as int) =~= words);
        assert(args.skip(next) =~= args.skip(at).skip(words.len() as int));
        assert(args.skip(next) =~= words_of(rest) + tail);
        assert(piece_allowed(pieces[0]));
        if pieces[0] is Remote {
            assert(names_remote(pieces));
        }
        if pieces[0] is Keybindings {
            assert(names_keybindings(pieces));
        }
        lemma_read_piece(args, at, reading, pieces[0]);
        let first = match pieces[0] {
            Piece::Plain(word) => Reading { cleaned: reading.cleaned.push(word), ..reading },
            Piece::Handoff => Reading { live_handoff: true, ..reading },
            Piece::Remote { value, .. } => Reading { target: Some(value), ..reading },
            Piece::Keybindings { value, .. } => Reading { keybindings: Some(value), ..reading },
        };
        lemma_reading_with_first(reading, pieces);
        assert forall|i: int| 0 <= i < rest.len() implies piece_allowed(#[trigger] rest[i]) by {
            assert(rest[i] == pieces[i + 1]);
        }
        lemma_read_pieces(args, next, first, rest, tail);
    }
}

/// The reading of a whole command line of parts.
proof fn lemma_read_line(program: Seq<char>, pieces: Seq<Piece>, tail: Seq<Seq<char>>)
    requires
        forall|i: int| 0 <= i < pieces.len() ==> piece_allowed(#[trigger] pieces[i]),
        no_option_twice(pieces),
    ensures
        ({
            let args = seq![program] + words_of(pieces) + tail;
            let start = Reading {
                cleaned: seq![program],
                target: None,
                keybindings: None,
                live_handoff: false,
            };
            &&& reading_of_program(args) == start
            &&& args.skip(1int + words_of(pieces).len()) == tail
            &&& read_from(args, 1, start) == read_from(
                args,
                1int + words_of(pieces).len(),
                reading_with(start, pieces),
            )
        }),
{
    let args = seq![program] + words_of(pieces) + tail;
    let start = Reading {
        cleaned: seq![program],
        target: None,
        keybindings: None,
        live_handoff: false,
    };
    assert(args[0] == program);
    assert(reading_of_program(args).cleaned =~= start.cleaned);
    assert(args.skip(1) =~= words_of(pieces) + tail);
    assert(args.skip(1int + words_of(pieces).len()) =~= tail);
    lemma_read_pieces(args, 1, start, pieces, tail);
}

proof fn lemma_read_other_program(
    args: Seq<Seq<char>>,
    at: int,
    reading: Reading,
    tail: Seq<Seq<char>>,
)
    requires
        0 <= at <= args.len(),
        args.skip(at) == tail,
        other_program(tail),
    ensures
        read_from(args, at, reading) == Ok::<Reading, Seq<char>>(
            Reading { cleaned: reading.cleaned + tail, ..reading },
        ),
{
    assert(args.skip(at).len() == args.len() - at);
    if tail.len() == 0 {
        assert(reading.cleaned + tail =~= reading.cleaned);
    } else {
        assert(args.skip(at)[0] == args[at]);
    }
}

/// A command line that names a destination once and key bindings at most once, in whatever
/// order its parts stand, asks for a launch to that destination. The launch has the key
/// bindings that are named, and the local ones where none are. It asks for a handoff exactly
/// when one of the parts does, wherever that stands. What is left are the program, the plain
/// arguments in their order, and all that begins with the separator.
pub proof fn law_options_in_any_order(
    program: Seq<char>,
    pieces: Seq<Piece>,
    tail: Seq<Seq<char>>,
    remote: int,
)
    requires
        forall|i: int| 0 <= i < pieces.len() ==> piece_allowed(#[trigger] pieces[i]),
        no_option_twice(pieces),
        0 <= remote < pieces.len(),
        pieces[remote] is Remote,
        other_program(tail),
    ensures
        extracted(seq![program] + words_of(pieces) + tail) matches Ok((left, Some(launch))) && {
            &&& left == seq![program] + plain_words(pieces) + tail
            &&& launch.target == pieces[remote]->Remote_value
            &&& launch.live_handoff <==> exists|i: int|
                0 <= i < pieces.len() && #[trigger] pieces[i] is Handoff
            &&& forall|i: int|
                0 <= i < pieces.len() && #[trigger] pieces[i] is Keybindings ==> launch.keybindings
                    == pieces[i]->Keybindings_value
            &&& !names_keybindings(pieces) ==> launch.keybindings is Local
        },
{
    let args = seq![program] + words_of(pieces) + tail;
    let start = reading_of_program(args);
    lemma_read_line(program, pieces, tail);
    let read = reading_with(start, pieces);
    lemma_read_other_program(args, (1 + words_of(pieces).len()) as int, read, tail);
    assert(names_remote(pieces));
    let at = choose|i: int| 0 <= i < pieces.len() && #[trigger] pieces[i] is Remote;
    assert(at == remote);
    assert forall|i: int|
        0 <= i < pieces.len() && #[trigger] pieces[i] is Keybindings implies read.keybindings
        == Some(pieces[i]->Keybindings_value) by {
        assert(names_keybindings(pieces));
        let k = choose|k: int| 0 <= k < pieces.len() && #[trigger] pieces[k] is Keybindings;
        assert(k == i);
    }
}

/// A command line that names no destination asks for no launch. Where it names key bindings
/// it is refused. Otherwise the program and the plain arguments are left with all that
/// begins with the separator, and behind that a request for a handoff, where there is one.
pub proof fn law_without_remote_nothing_is_launched(
    program: Seq<char>,
    pieces: Seq<Piece>,
    tail: Seq<Seq<char>>,
)
    requires
        forall|i: int| 0 <= i < pieces.len() ==> piece_allowed(#[trigger] pieces[i]),
        no_option_twice(pieces),
        !names_remote(pieces),
        other_program(tail),
    ensures
        names_keybindings(pieces) ==> extracted(seq![program] + words_of(pieces) + tail) == Err::<
            (Seq<Seq<char>>, Option<LaunchModel>),
            Seq<char>,
        >("--remote-keybindings requires --remote"@),
        !names_keybindings(pieces) ==> extracted(seq![program] + words_of(pieces) + tail) == Ok::<
            (Seq<Seq<char>>, Option<LaunchModel>),
            Seq<char>,
        >(
            (
                seq![program] + plain_words(pieces) + tail + (if asks_for_handoff(pieces) {
                    seq!["--handoff"@]
                } else {
                    Seq::empty()
                }),
                None,
            ),
        ),
{
    let args = seq![program] + words_of(pieces) + tail;
    let start = reading_of_program(args);
    lemma_read_line(program, pieces, tail);
    let read = reading_with(start, pieces);
    lemma_read_other_program(args, (1 + words_of(pieces).len()) as int, read, tail);
    let left = seq![program] + plain_words(pieces) + tail;
    assert(left + seq!["--handoff"@] =~= left.push("--handoff"@));
    assert(left + Seq::<Seq<char>>::empty() =~= left);
}

/// Whatever allowed parts stand before it, a command line is refused at a second destination
/// or second key bindings, at an option whose value is missing, at a destination that is
/// empty or begins with a dash, and at key bindings that are neither the local ones nor the
/// server's, each with a message of its own, and whatever follows.
pub proof fn law_faulty_options_are_refused(
    program: Seq<char>,
    pieces: Seq<Piece>,
    value: Seq<char>,
    rest: Seq<Seq<char>>,
)
    requires
        forall|i: int| 0 <= i < pieces.len() ==> piece_allowed(#[trigger] pieces[i]),
        no_option_twice(pieces),
    ensures
        ({
            let front = seq![program] + words_of(pieces);
            let remote = front + (seq!["--remote"@, value] + rest);
            let joined = front + (seq!["--remote="@ + value] + rest);
            &&& names_remote(pieces) ==> extracted(remote)->Err_0
                == "--remote can only be specified once"@ && extracted(remote) is Err
                && extracted(joined) is Err && extracted(joined)->Err_0
                == "--remote can only be specified once"@
            &&& !names_remote(pieces) && value.len() == 0 ==> extracted(remote) is Err
                && extracted(remote)->Err_0 == "missing value for --remote"@ && extracted(
                joined,
            ) is Err && extracted(joined)->Err_0 == "missing value for --remote"@
            &&& !names_remote(pieces) && value.len() > 0 && value[0] == '-' ==> extracted(
                remote,
            ) is Err && extracted(remote)->Err_0 == "--remote target must not start with '-'"@
                && extracted(joined) is Err && extracted(joined)->Err_0
                == "--remote target must not start with '-'"@
            &&& !names_remote(pieces) ==> extracted(front + seq!["--remote"@]) is Err && extracted(
                front + seq!["--remote"@],
            )->Err_0 == "missing value for --remote"@
        }),
        ({
            let front = seq![program] + words_of(pieces);
            let keys = front + (seq!["--remote-keybindings"@, value] + rest);
            let joined = front + (seq!["--remote-keybindings="@ + value] + rest);
            &&& names_keybindings(pieces) ==> extracted(keys) is Err && extracted(keys)->Err_0
                == "--remote-keybindings can only be specified once"@ && extracted(joined) is Err
                && extracted(joined)->Err_0 == "--remote-keybindings can only be specified once"@
            &&& !names_keybindings(pieces) && value != "local"@ && value != "server"@
                ==> extracted(keys) is Err && extracted(keys)->Err_0
                == "--remote-keybindings must be 'local' or 'server'"@ && extracted(joined) is Err
                && extracted(joined)->Err_0 == "--remote-keybindings must be 'local' or 'server'"@
            &&& !names_keybindings(pieces) ==> extracted(
                front + seq!["--remote-keybindings"@],
            ) is Err && extracted(front + seq!["--remote-keybindings"@])->Err_0
                == "missing value for --remote-keybindings"@
        }),
{
    lemma_option_tokens();
    lemma_inline_tokens(value);
    let at = (1 + words_of(pieces).len()) as int;
    let front = seq![program] + words_of(pieces);
    let tails = seq![
        seq!["--remote"@, value] + rest,
        seq!["--remote="@ + value] + rest,
        seq!["--remote"@],
        seq!["--remote-keybindings"@, value] + rest,
        seq!["--remote-keybindings="@ + value] + rest,
        seq!["--remote-keybindings"@],
    ];
    assert forall|t: int| 0 <= t < 6 implies {
        let args = front + #[trigger] tails[t];
        let read = reading_with(reading_of_program(args), pieces);
        &&& read_from(args, 1, reading_of_program(args)) == read_from(args, at, read)
        &&& args[at] == tails[t][0]
        &&& tails[t].len() > 1 ==> args[at + 1] == tails[t][1]
        &&& args.len() == at + tails[t].len()
        &&& read.target is Some <==> names_remote(pieces)
        &&& read.keybindings is Some <==> names_keybindings(pieces)
    } by {
        let args = front + tails[t];
        lemma_read_line(program, pieces, tails[t]);
        assert(seq![program] + words_of(pieces) + tails[t] =~= args);
    }
    assert(tails[0][1] == value);
    assert(tails[3][1] == value);
    let a0 = front + tails[0];
    let a1 = front + tails[1];
    let a2 = front + tails[2];
    let a3 = front + tails[3];
    let a4 = front + tails[4];
    let a5 = front + tails[5];
    assert(a0[at] == "--remote"@ && a1[at] == "--remote="@ + value && a2[at] == "--remote"@);
    assert(a3[at] == "--remote-keybindings"@ && a4[at] == "--remote-keybindings="@ + value
        && a5[at] == "--remote-keybindings"@);
}

/// The command that attaches again begins with the program that was called, under its usual
/// name where that is empty. It names a session exactly where that is not the default one,
/// key bindings exactly where they are the server's, and a handoff exactly where one was
/// asked for.
pub proof fn law_reattach_words(
    program: Seq<char>,
    launch: LaunchModel,
    session_name: Seq<char>,
    default_session: Seq<char>,
)
    ensures
        ({
            let words = reattach_words(program, launch, session_name, default_session);
            &&& program.len() > 0 ==> words[0] == program
            &&& program.len() == 0 ==> words[0] == "herdr"@
            &&& words.len() == 3 + (if launch.keybindings is Server {
                2int
            } else {
                0
            }) + (if launch.live_handoff {
                1int
            } else {
                0
            }) + (if session_name != default_session {
                2int
            } else {
                0
            })
            &&& session_name != default_session ==> words[words.len() - 2] == "--session"@
                && words.last() == session_name
        }),
        session_name == default_session ==> session_words(session_name, default_session).len() == 0,
        session_name != default_session ==> session_words(session_name, default_session) == seq![
            "--session"@,
            session_name,
        ],
        program_or_usual(program) == (if program.len() == 0 {
            "herdr"@
        } else {
            program
        }),
{
}

} // verus!
