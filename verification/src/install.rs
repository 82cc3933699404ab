//! Installing a binary on a remote host: where it comes from, and the commands that
//! put it in place.
use crate::host::ClientBuild;
use crate::host::RemoteHerdr;
use crate::host::RemotePlatform;
use crate::host;
use crate::manifest::REMOTE_BINARY_ENV_VAR;
use crate::report::CommandOutput;
use crate::report::ErrorKind;
use crate::report::Failure;
use crate::report::RemoteError;
use crate::report::command_failed;
use crate::report::other_error;
use crate::report;
use crate::shell::quote_line;
use crate::shell;
use crate::text::decimal_text;
use crate::text::from_utf8;
use crate::text;
use vstd::prelude::*;
use vstd::string::*;
use vstd::utf8::*;

verus! {

/// The script that prepares an installation, up to the place of the binary.
pub const PREPARE_HEAD: &'static str = "set -eu\ndest=\"$HOME/";

/// The script that prepares an installation, behind the place of the binary.
pub const PREPARE_TAIL: &'static str = r#""
dir="${dest%/*}"
mkdir -p "$dir"
tmp="${dest}.tmp.$$"
printf '%s\0%s\0' "$tmp" "$dest"
"#;

/// The script that makes room for the binary and tells two paths, each with a NUL
/// behind it: a temporary one and that of the binary.
pub fn remote_install_prepare_script(remote_herdr: &RemoteHerdr) -> (res: String)
    ensures
        res@ == PREPARE_HEAD@ + remote_herdr.install_suffix@ + PREPARE_TAIL@,
{
    let mut script = PREPARE_HEAD.to_string();
    script.append(remote_herdr.install_suffix.as_str());
    script.append(PREPARE_TAIL);
    script
}

/// The position of the first NUL in `bytes`, or its length where there is none.
pub open spec fn nul_position(bytes: Seq<u8>) -> nat
    decreases bytes.len(),
{
    if bytes.len() == 0 || bytes[0] == 0 {
        0
    } else {
        1 + nul_position(bytes.drop_first())
    }
}

/// The bytes before the first NUL.
pub open spec fn before_nul(bytes: Seq<u8>) -> Seq<u8> {
    bytes.take(nul_position(bytes) as int)
}

/// The bytes behind the first NUL.
pub open spec fn behind_nul(bytes: Seq<u8>) -> Seq<u8> {
    if nul_position(bytes) < bytes.len() {
        bytes.skip(nul_position(bytes) as int + 1)
    } else {
        Seq::empty()
    }
}

proof fn lemma_nul_position(bytes: Seq<u8>, at: int)
    requires
        0 <= at <= bytes.len(),
        at < bytes.len() ==> bytes[at] == 0,
        forall|i: int| 0 <= i < at ==> bytes[i] != 0,
    ensures
        nul_position(bytes) == at,
    decreases bytes.len(),
{
    if bytes.len() > 0 && at > 0 {
        assert(bytes[0] != 0);
        let rest = bytes.drop_first();
        assert forall|i: int| 0 <= i < at - 1 implies rest[i] != 0 by {
            assert(rest[i] == bytes[i + 1]);
        }
        lemma_nul_position(rest, at - 1);
    }
}

/// The position of the first NUL in `bytes` from `from` on, or their length.
fn find_nul(bytes: &[u8], from: usize) -> (res: usize)
    requires
        from <= bytes@.len(),
    ensures
        from <= res <= bytes@.len(),
        res == from + nul_position(bytes@.skip(from as int)),
{
    let mut at: usize = from;
    let ghost rest = bytes@.skip(from as int);
    while at < bytes.len() && bytes[at] != 0
        invariant
            from <= at <= bytes@.len(),
            forall|i: int| from <= i < at ==> bytes@[i] != 0,
        decreases bytes@.len() - at,
    {
        at = at + 1;
    }
    proof {
        assert forall|i: int| 0 <= i < at - from implies rest[i] != 0 by {
            assert(rest[i] == bytes@[from + i]);
        }
        lemma_nul_position(rest, at - from);
    }
    at
}

fn copy_range(bytes: &[u8], from: usize, to: usize) -> (res: Vec<u8>)
    requires
        from <= to <= bytes@.len(),
    ensures
        res@ == bytes@.subrange(from as int, to as int),
{
    let mut out: Vec<u8> = Vec::new();
    let mut i: usize = from;
    while i < to
        invariant
            from <= i <= to <= bytes@.len(),
            out@ == bytes@.subrange(from as int, i as int),
        decreases to - i,
    {
        out.push(bytes[i]);
        assert(bytes@.subrange(from as int, i + 1) =~= bytes@.subrange(from as int, i as int).push(
            bytes@[i as int],
        ));
        i = i + 1;
    }
    out
}

/// The two paths that the preparing script told: the temporary one and that of the
/// binary.
pub open spec fn install_paths(stdout: Seq<u8>) -> Result<
    (Seq<char>, Seq<char>),
    report::ErrorModel,
> {
    let tmp = before_nul(stdout);
    let dest = before_nul(behind_nul(stdout));
    if tmp.len() == 0 || dest.len() == 0 {
        Err(
            report::plain_error("remote install preparation did not return destination paths"@),
        )
    } else if !valid_utf8(tmp) {
        Err(
            report::plain_error(
                "remote install temporary path is not valid UTF-8: "@ + text::utf8_complaint(tmp),
            ),
        )
    } else if !valid_utf8(dest) {
        Err(
            report::plain_error(
                "remote install destination path is not valid UTF-8: "@ + text::utf8_complaint(
                    dest,
                ),
            ),
        )
    } else {
        Ok((decode_utf8(tmp), decode_utf8(dest)))
    }
}

/// The two paths that the preparing script told: the temporary one and that of the
/// binary.
pub fn parse_remote_install_paths(stdout: &[u8]) -> (res: Result<(String, String), RemoteError>)
    ensures
        report::outcome(res) == install_paths(stdout@),
{
    let first: usize = find_nul(stdout, 0);
    assert(stdout@.skip(0) =~= stdout@);
    let tmp = copy_range(stdout, 0, first);
    assert(tmp@ =~= before_nul(stdout@));
    let dest = if first < stdout.len() {
        let second: usize = find_nul(stdout, first + 1);
        let dest = copy_range(stdout, first + 1, second);
        assert(dest@ =~= before_nul(behind_nul(stdout@)));
        dest
    } else {
        let dest: Vec<u8> = Vec::new();
        assert(dest@ =~= before_nul(behind_nul(stdout@)));
        dest
    };
    if tmp.len() == 0 || dest.len() == 0 {
        return Err(
            other_error(
                "remote install preparation did not return destination paths".to_string(),
            ),
        );
    }
    let tmp_path = match from_utf8(tmp.as_slice()) {
        Ok(path) => path,
        Err(complaint) => {
            let mut message = "remote install temporary path is not valid UTF-8: ".to_string();
            message.append(complaint.as_str());
            return Err(other_error(message));
        },
    };
    let dest_path = match from_utf8(dest.as_slice()) {
        Ok(path) => path,
        Err(complaint) => {
            let mut message = "remote install destination path is not valid UTF-8: ".to_string();
            message.append(complaint.as_str());
            return Err(other_error(message));
        },
    };
    Ok((tmp_path, dest_path))
}

proof fn lemma_scalar_has_no_nul(scalar: u32)
    requires
        is_scalar(scalar),
        scalar != 0,
    ensures
        encode_scalar(scalar).len() > 0,
        forall|i: int| 0 <= i < encode_scalar(scalar).len() ==> encode_scalar(scalar)[i] != 0,
{
    if scalar <= 0x7F {
        assert((scalar & 0x7F) as u8 != 0) by (bit_vector)
            requires
                0 < scalar <= 0x7F,
        ;
    }
    assert(0xC0u8 | ((scalar >> 6) & 0x1F) as u8 != 0) by (bit_vector);
    assert(0xE0u8 | ((scalar >> 12) & 0x0F) as u8 != 0) by (bit_vector);
    assert(0xF0u8 | ((scalar >> 18) & 0x7) as u8 != 0) by (bit_vector);
    assert(0x80u8 | (scalar & 0x3F) as u8 != 0) by (bit_vector);
    assert(0x80u8 | ((scalar >> 6) & 0x3F) as u8 != 0) by (bit_vector);
    assert(0x80u8 | ((scalar >> 12) & 0x3F) as u8 != 0) by (bit_vector);
}

proof fn lemma_text_has_no_nul(chars: Seq<char>)
    requires
        forall|i: int| 0 <= i < chars.len() ==> chars[i] != '\0',
    ensures
        encode_utf8(chars).len() >= chars.len(),
        forall|i: int| 0 <= i < encode_utf8(chars).len() ==> encode_utf8(chars)[i] != 0,
    decreases chars.len(),
{
    if chars.len() > 0 {
        let first: char = chars[0];
        assert(first != '\0');
        char_is_scalar(first);
        if first as u32 == 0 {
            char_u32_cast(first, 0);
            char_u32_cast('\0', 0);
        }
        lemma_scalar_has_no_nul(first as u32);
        lemma_text_has_no_nul(chars.drop_first());
    }
}

/// Paths that hold no NUL are read back from what the preparing script writes of them,
/// whatever other characters they hold.
pub proof fn law_install_paths_read_back(tmp: Seq<char>, dest: Seq<char>)
    requires
        tmp.len() > 0,
        dest.len() > 0,
        forall|i: int| 0 <= i < tmp.len() ==> tmp[i] != '\0',
        forall|i: int| 0 <= i < dest.len() ==> dest[i] != '\0',
    ensures
        install_paths(encode_utf8(tmp) + seq![0u8] + encode_utf8(dest) + seq![0u8]) == Ok::<
            (Seq<char>, Seq<char>),
            report::ErrorModel,
        >((tmp, dest)),
{
    let first = encode_utf8(tmp);
    let second = encode_utf8(dest);
    let stdout = first + seq![0u8] + second + seq![0u8];
    lemma_text_has_no_nul(tmp);
    lemma_text_has_no_nul(dest);
    encode_utf8_valid_utf8(tmp);
    encode_utf8_valid_utf8(dest);
    encode_utf8_decode_utf8(tmp);
    encode_utf8_decode_utf8(dest);
    assert forall|i: int| 0 <= i < first.len() implies stdout[i] != 0 by {
        assert(stdout[i] == first[i]);
    }
    lemma_nul_position(stdout, first.len() as int);
    assert(before_nul(stdout) =~= first);
    let rest = second + seq![0u8];
    assert(behind_nul(stdout) =~= rest);
    assert forall|i: int| 0 <= i < second.len() implies rest[i] != 0 by {
        assert(rest[i] == second[i]);
    }
    lemma_nul_position(rest, second.len() as int);
    assert(before_nul(rest) =~= second);
}

/// The command that writes what it is sent to the temporary path.
pub fn remote_install_stream_command(tmp_path: &str) -> (res: String)
    ensures
        res@ == shell::quoted_line(seq!["tee"@, tmp_path@]),
{
    let mut words: Vec<String> = Vec::new();
    words.push("tee".to_string());
    words.push(tmp_path.to_string());
    assert(words.deep_view() =~= seq!["tee"@, tmp_path@]);
    quote_line(words.as_slice())
}

/// The script that puts the binary in its place.
pub open spec fn commit_script(tmp_path: Seq<char>, dest_path: Seq<char>) -> Seq<char> {
    "set -eu\n"@ + shell::quoted_line(seq!["chmod"@, "755"@, tmp_path]) + "\n"@
        + shell::quoted_line(seq!["mv"@, tmp_path, dest_path]) + "\n"@
}

/// The script that puts the binary in its place.
pub fn remote_install_commit_script(tmp_path: &str, dest_path: &str) -> (res: String)
    ensures
        res@ == commit_script(tmp_path@, dest_path@),
{
    let mut script = "set -eu\n".to_string();
    let mut words: Vec<String> = Vec::new();
    words.push("chmod".to_string());
    words.push("755".to_string());
    words.push(tmp_path.to_string());
    assert(words.deep_view() =~= seq!["chmod"@, "755"@, tmp_path@]);
    script.append(quote_line(words.as_slice()).as_str());
    script.append("\n");
    let mut words: Vec<String> = Vec::new();
    words.push("mv".to_string());
    words.push(tmp_path.to_string());
    words.push(dest_path.to_string());
    assert(words.deep_view() =~= seq!["mv"@, tmp_path@, dest_path@]);
    script.append(quote_line(words.as_slice()).as_str());
    script.append("\n");
    script
}

/// A shell reads the command that takes the binary, and each command of the script that
/// puts it in place, as words among which the paths are single ones, whatever characters
/// they hold.
pub proof fn law_install_commands_read_back(tmp_path: Seq<char>, dest_path: Seq<char>)
    ensures
        shell::shell_words(shell::quoted_line(seq!["tee"@, tmp_path]), None, false) == Some(
            seq!["tee"@, tmp_path],
        ),
        exists|first: Seq<char>, second: Seq<char>|
            #![trigger shell::shell_words(first, None, false), shell::shell_words(
                second,
                None,
                false,
            )]
            {
                &&& commit_script(tmp_path, dest_path) == "set -eu\n"@ + first + "\n"@ + second
                    + "\n"@
                &&& shell::shell_words(first, None, false) == Some(
                    seq!["chmod"@, "755"@, tmp_path],
                )
                &&& shell::shell_words(second, None, false) == Some(
                    seq!["mv"@, tmp_path, dest_path],
                )
            },
{
    let first = seq!["chmod"@, "755"@, tmp_path];
    let second = seq!["mv"@, tmp_path, dest_path];
    shell::law_quoted_line_reads_back(seq!["tee"@, tmp_path]);
    shell::law_quoted_line_reads_back(first);
    shell::law_quoted_line_reads_back(second);
    assert(shell::shell_words(shell::quoted_line(first), None, false) == Some(first));
    assert(shell::shell_words(shell::quoted_line(second), None, false) == Some(second));
}

/// The paths of an installation whose preparing script ended so.
pub open spec fn paths_prepared(output: CommandOutput) -> Result<
    (Seq<char>, Seq<char>),
    report::ErrorModel,
> {
    if !output.success {
        Err(report::command_error("remote install preparation failed"@, output))
    } else {
        install_paths(output.stdout@)
    }
}

/// The paths of an installation whose preparing script ended so: the temporary one and
/// that of the binary.
pub fn install_prepared(output: &CommandOutput) -> (res: Result<(String, String), RemoteError>)
    ensures
        report::outcome(res) == paths_prepared(*output),
{
    if !output.success {
        return Err(command_failed("remote install preparation failed", output));
    }
    parse_remote_install_paths(output.stdout.as_slice())
}

/// How sending the binary went.
#[derive(Debug, Clone, Copy, PartialEq, Eq, Structural)]
pub enum Copied {
    /// All of it was sent.
    All,
    /// The command has no standard input.
    NoInput,
    /// Sending failed.
    Failed,
}

/// How the command that takes the binary ended.
#[derive(Debug, Clone, PartialEq, Eq)]
pub enum StreamEnd {
    /// It was not started.
    NotStarted { cause: String },
    /// Its end could not be awaited, or the binary could not be read.
    Lost,
    /// It ended.
    Ended { copied: Copied, success: bool, status: String },
}

/// What is to be done after the binary was sent: run the script that puts it in place,
/// or give up.
pub open spec fn after_stream(tmp_path: Seq<char>, dest_path: Seq<char>, end: StreamEnd) -> Result<
    Seq<char>,
    report::FailureModel,
> {
    match end {
        StreamEnd::NotStarted { cause } => Err(
            report::FailureModel::Own(
                report::ErrorModel {
                    kind: ErrorKind::OfCause,
                    message: "failed to start ssh install: "@ + cause@,
                },
            ),
        ),
        StreamEnd::Lost => Err(report::FailureModel::Cause),
        StreamEnd::Ended { copied, success, status } => match copied {
            Copied::Failed => Err(report::FailureModel::Cause),
            Copied::NoInput => Err(
                report::FailureModel::Own(
                    report::ErrorModel {
                        kind: ErrorKind::BrokenPipe,
                        message: "ssh install stdin missing"@,
                    },
                ),
            ),
            Copied::All => if success {
                Ok(commit_script(tmp_path, dest_path))
            } else {
                Err(
                    report::FailureModel::Own(
                        report::plain_error("remote install exited with "@ + status@),
                    ),
                )
            },
        },
    }
}

/// What is to be done after the binary was sent: run the script that puts it in place,
/// or give up.
pub fn install_streamed(tmp_path: &str, dest_path: &str, end: &StreamEnd) -> (res: Result<
    String,
    Failure,
>)
    ensures
        match after_stream(tmp_path@, dest_path@, *end) {
            Ok(script) => res is Ok && res->Ok_0@ == script,
            Err(failure) => res is Err && res->Err_0.deep_view() == failure,
        },
{
    match end {
        StreamEnd::NotStarted { cause } => {
            let mut message = "failed to start ssh install: ".to_string();
            message.append(cause.as_str());
            Err(Failure::Own(RemoteError { kind: ErrorKind::OfCause, message }))
        },
        StreamEnd::Lost => Err(Failure::Cause),
        StreamEnd::Ended { copied, success, status } => match copied {
            Copied::Failed => Err(Failure::Cause),
            Copied::NoInput => Err(
                Failure::Own(
                    RemoteError {
                        kind: ErrorKind::BrokenPipe,
                        message: "ssh install stdin missing".to_string(),
                    },
                ),
            ),
            Copied::All => {
                if *success {
                    Ok(remote_install_commit_script(tmp_path, dest_path))
                } else {
                    let mut message = "remote install exited with ".to_string();
                    message.append(status.as_str());
                    Err(Failure::Own(other_error(message)))
                }
            },
        },
    }
}

/// Whether the binary is in place after the script that puts it there.
pub fn install_committed(output: &CommandOutput) -> (res: Result<(), RemoteError>)
    ensures
        report::outcome(res) == (if output.success {
            Ok::<(), report::ErrorModel>(())
        } else {
            Err(report::command_error("remote install commit failed"@, *output))
        }),
{
    if output.success {
        Ok(())
    } else {
        Err(command_failed("remote install commit failed", output))
    }
}

/// A local file to install, and the directory that is removed with it.
#[derive(Debug, Clone, PartialEq, Eq)]
pub struct InstallSource {
    pub path: String,
    pub temporary_dir: Option<String>,
}

/// A local file as its path, and its directory where that is removed with it.
#[verifier::ext_equal]
pub struct SourceModel {
    pub path: Seq<char>,
    pub temporary_dir: Option<Seq<char>>,
}

impl DeepView for InstallSource {
    type V = SourceModel;

    open spec fn deep_view(&self) -> SourceModel {
        SourceModel { path: self.path@, temporary_dir: self.temporary_dir.deep_view() }
    }
}

impl InstallSource {
    /// A file that is kept.
    pub fn persistent(path: String) -> (res: InstallSource)
        ensures
            res.deep_view() == (SourceModel { path: path@, temporary_dir: None }),
    {
        InstallSource { path, temporary_dir: None }
    }

    /// A file that is removed with its directory.
    pub fn temporary(path: String, temporary_dir: String) -> (res: InstallSource)
        ensures
            res.deep_view() == (SourceModel {
                path: path@,
                temporary_dir: Some(temporary_dir@),
            }),
    {
        InstallSource { path, temporary_dir: Some(temporary_dir) }
    }
}

/// How the binary that will be installed is described.
pub open spec fn source_description(
    client: ClientBuild,
    platform: host::PlatformModel,
    override_binary: Option<Seq<char>>,
    local_binary: bool,
) -> Seq<char> {
    match override_binary {
        Some(path) => REMOTE_BINARY_ENV_VAR@ + " ("@ + path + ")"@,
        None => if local_binary {
            "the current local herdr binary"@
        } else {
            "the "@ + client.version@ + " "@ + client.channel@ + " asset for "@ + host::asset_name(
                platform,
            )
        },
    }
}

/// How the binary that will be installed is described.
pub fn install_source_description_for(
    client: &ClientBuild,
    platform: &RemotePlatform,
    override_binary: Option<&str>,
    local_binary_can_seed_remote: bool,
) -> (res: String)
    ensures
        res@ == source_description(
            *client,
            platform.deep_view(),
            override_binary.deep_view(),
            local_binary_can_seed_remote,
        ),
{
    if let Some(path) = override_binary {
        let mut description = REMOTE_BINARY_ENV_VAR.to_string();
        description.append(" (");
        description.append(path);
        description.append(")");
        return description;
    }
    if local_binary_can_seed_remote {
        "the current local herdr binary".to_string()
    } else {
        let mut description = "the ".to_string();
        description.append(client.version.as_str());
        description.append(" ");
        description.append(client.channel.as_str());
        description.append(" asset for ");
        description.append(platform.asset_key().as_str());
        description
    }
}

/// Whether this client's own binary runs on hosts of `platform`. It is a Windows
/// program, and hosts are Linux or macOS ones, so it never does.
pub fn local_binary_can_seed_remote(platform: &RemotePlatform) -> (res: bool)
    ensures
        !res,
{
    let _ = platform;
    false
}

/// How the binary that will be installed is described.
pub fn install_source_description(
    client: &ClientBuild,
    platform: &RemotePlatform,
    override_binary: Option<&str>,
) -> (res: String)
    ensures
        res@ == source_description(
            *client,
            platform.deep_view(),
            override_binary.deep_view(),
            false,
        ),
{
    install_source_description_for(
        client,
        platform,
        override_binary,
        local_binary_can_seed_remote(platform),
    )
}

/// Where the binary to install comes from.
#[derive(Debug, Clone, PartialEq, Eq)]
pub enum SourcePlan {
    /// A file that is there.
    File(InstallSource),
    /// The program that is running.
    CurrentExe,
    /// A released file for the platform.
    Download,
}

/// Where the binary to install comes from: the file that the user names, and a
/// released one otherwise. `local` is the platform of this client.
pub fn resolve_install_source(
    platform: &RemotePlatform,
    local: &RemotePlatform,
    override_binary: Option<String>,
) -> (res: SourcePlan)
    ensures
        match override_binary {
            Some(path) => res matches SourcePlan::File(source) && source.deep_view() == (
            SourceModel { path: path@, temporary_dir: None }),
            None => res is Download,
        },
{
    if let Some(path) = override_binary {
        return SourcePlan::File(InstallSource::persistent(path));
    }
    if platform.same_as(local) && local_binary_can_seed_remote(platform) {
        return SourcePlan::CurrentExe;
    }
    SourcePlan::Download
}

/// The path that the user's variable names, if it is set.
pub open spec fn override_wanted(value: Option<Seq<char>>) -> Result<
    Option<Seq<char>>,
    report::ErrorModel,
> {
    match value {
        Some(path) => if path.len() == 0 {
            Err(
                report::ErrorModel {
                    kind: ErrorKind::InvalidInput,
                    message: REMOTE_BINARY_ENV_VAR@ + " must not be empty"@,
                },
            )
        } else {
            Ok(Some(path))
        },
        None => Ok(None),
    }
}

/// The path that the user's variable names, if it is set.
pub fn override_requested(value: Option<String>) -> (res: Result<Option<String>, RemoteError>)
    ensures
        report::outcome(res) == override_wanted(value.deep_view()),
{
    match value {
        Some(path) => {
            if path.as_str().is_empty() {
                let mut message = REMOTE_BINARY_ENV_VAR.to_string();
                message.append(" must not be empty");
                return Err(RemoteError { kind: ErrorKind::InvalidInput, message });
            }
            Ok(Some(path))
        },
        None => Ok(None),
    }
}

/// The path that the user's variable names, after the file was looked at: it must be a
/// file.
pub open spec fn override_path(path: Seq<char>, is_file: Result<bool, Seq<char>>) -> Result<
    Seq<char>,
    report::ErrorModel,
> {
    match is_file {
        Ok(true) => Ok(path),
        Ok(false) => Err(
            report::ErrorModel {
                kind: ErrorKind::InvalidInput,
                message: REMOTE_BINARY_ENV_VAR@ + " path is not a file: "@ + path,
            },
        ),
        Err(cause) => Err(
            report::ErrorModel {
                kind: ErrorKind::OfCause,
                message: "failed to inspect "@ + REMOTE_BINARY_ENV_VAR@ + " path "@ + path + ": "@
                    + cause,
            },
        ),
    }
}

/// The path that the user's variable names, after the file was looked at: `is_file`
/// tells whether it is a file, or why it could not be looked at.
pub fn override_inspected(path: String, is_file: Result<bool, String>) -> (res: Result<
    String,
    RemoteError,
>)
    ensures
        report::outcome(res) == override_path(
            path@,
            match is_file {
                Ok(file) => Ok(file),
                Err(cause) => Err(cause@),
            },
        ),
{
    match is_file {
        Ok(true) => Ok(path),
        Ok(false) => {
            let mut message = REMOTE_BINARY_ENV_VAR.to_string();
            message.append(" path is not a file: ");
            message.append(path.as_str());
            Err(RemoteError { kind: ErrorKind::InvalidInput, message })
        },
        Err(cause) => {
            let mut message = "failed to inspect ".to_string();
            message.append(REMOTE_BINARY_ENV_VAR);
            message.append(" path ");
            message.append(path.as_str());
            message.append(": ");
            message.append(cause.as_str());
            Err(RemoteError { kind: ErrorKind::OfCause, message })
        },
    }
}

/// How many names are tried for the directory of a download.
pub const DOWNLOAD_DIR_ATTEMPTS: u32 = 100;

/// The name of the directory of a download, at one of the attempts to create it.
pub open spec fn download_dir(pid: u32, asset_key: Seq<char>, attempt: u32) -> Seq<char> {
    "herdr-remote-"@ + text::decimal(pid as nat) + "-"@ + asset_key + "-"@ + text::decimal(
        attempt as nat,
    )
}

/// The name of the directory of a download, at one of the attempts to create it.
pub fn download_dir_name(pid: u32, asset_key: &str, attempt: u32) -> (res: String)
    ensures
        res@ == download_dir(pid, asset_key@, attempt),
{
    let mut name = "herdr-remote-".to_string();
    name.append(decimal_text(pid as u64).as_str());
    name.append("-");
    name.append(asset_key);
    name.append("-");
    name.append(decimal_text(attempt as u64).as_str());
    name
}

/// Every attempt to create the directory of a download tries another name.
pub proof fn law_download_dirs_differ(pid: u32, asset_key: Seq<char>, a: u32, b: u32)
    requires
        a != b,
    ensures
        download_dir(pid, asset_key, a) != download_dir(pid, asset_key, b),
{
    let front = "herdr-remote-"@ + text::decimal(pid as nat) + "-"@ + asset_key + "-"@;
    let one = text::decimal(a as nat);
    let other = text::decimal(b as nat);
    if front + one == front + other {
        assert((front + one).skip(front.len() as int) =~= one);
        assert((front + other).skip(front.len() as int) =~= other);
        text::lemma_decimal_injective(a as nat, b as nat);
    }
}

/// How an attempt to create a directory ended.
#[derive(Debug, Clone, Copy, PartialEq, Eq, Structural)]
pub enum DirAttempt {
    Created,
    Exists,
    Failed,
}

/// What follows an attempt to create the directory of a download.
#[derive(Debug, Clone, PartialEq, Eq)]
pub enum DirStep {
    /// The directory of this attempt is there.
    Use,
    /// The next attempt.
    Try(u32),
    /// No further attempt.
    GiveUp(Failure),
}

/// The error about a directory of a download under whose names there are others.
pub open spec fn no_download_dir() -> report::ErrorModel {
    report::ErrorModel {
        kind: ErrorKind::AlreadyExists,
        message: "failed to create private herdr remote download directory"@,
    }
}

/// What follows an attempt to create the directory of a download: a name that is taken
/// leads to the next one, until all were tried.
pub fn private_download_dir(attempt: u32, result: DirAttempt) -> (res: DirStep)
    requires
        attempt < DOWNLOAD_DIR_ATTEMPTS,
    ensures
        match result {
            DirAttempt::Created => res is Use,
            DirAttempt::Failed => res matches DirStep::GiveUp(failure) && failure is Cause,
            DirAttempt::Exists => if attempt + 1 < DOWNLOAD_DIR_ATTEMPTS {
                res == DirStep::Try((attempt + 1) as u32)
            } else {
                res matches DirStep::GiveUp(Failure::Own(error)) && error.deep_view()
                    == no_download_dir()
            },
        },
        result is Exists && attempt < 99 ==> res == DirStep::Try((attempt + 1) as u32),
        result is Exists && attempt >= 99 ==> res is GiveUp,
{
    match result {
        DirAttempt::Created => DirStep::Use,
        DirAttempt::Failed => DirStep::GiveUp(Failure::Cause),
        DirAttempt::Exists => {
            if attempt + 1 < DOWNLOAD_DIR_ATTEMPTS {
                DirStep::Try(attempt + 1)
            } else {
                DirStep::GiveUp(
                    Failure::Own(
                        RemoteError {
                            kind: ErrorKind::AlreadyExists,
                            message:
                                "failed to create private herdr remote download directory".to_string(),
                        },
                    ),
                )
            }
        },
    }
}

/// The options with which `curl` fetches a released file, before the path of the file
/// and its address.
pub fn download_curl_options() -> (res: Vec<String>)
    ensures
        res.deep_view() == seq!["-sfL"@, "--max-time"@, "120"@, "-o"@],
{
    let mut options: Vec<String> = Vec::new();
    options.push("-sfL".to_string());
    options.push("--max-time".to_string());
    options.push("120".to_string());
    options.push("-o".to_string());
    assert(options.deep_view() =~= seq!["-sfL"@, "--max-time"@, "120"@, "-o"@]);
    options
}

/// How a download ended.
#[derive(Debug, Clone, PartialEq, Eq)]
pub enum DownloadEnd {
    /// `curl` was not started.
    NotStarted { cause: String },
    /// `curl` failed.
    Failed,
    /// The file is there, with a checksum that is not the expected one.
    BadChecksum { cause: String },
    /// The file is there, with the expected checksum where one is known.
    Fetched,
}

/// The file that a download leaves, or the error with which it ends, and whether its
/// directory is removed at once.
pub open spec fn after_download(path: Seq<char>, dir: Seq<char>, end: DownloadEnd) -> (
    Result<SourceModel, report::ErrorModel>,
    bool,
) {
    match end {
        DownloadEnd::NotStarted { cause } => (
            Err(
                report::ErrorModel {
                    kind: ErrorKind::OfCause,
                    message: "download failed: "@ + cause@,
                },
            ),
            false,
        ),
        DownloadEnd::Failed => (Err(report::plain_error("download failed"@)), true),
        DownloadEnd::BadChecksum { cause } => (
            Err(
                report::ErrorModel {
                    kind: ErrorKind::OfCause,
                    message: "downloaded remote asset checksum verification failed: "@ + cause@,
                },
            ),
            true,
        ),
        DownloadEnd::Fetched => (
            Ok(SourceModel { path, temporary_dir: Some(dir) }),
            false,
        ),
    }
}

/// The file that a download leaves, or the error with which it ends, and whether its
/// directory is removed at once.
pub fn download_release_asset(path: String, dir: String, end: &DownloadEnd) -> (res: (
    Result<InstallSource, RemoteError>,
    bool,
))
    ensures
        (report::outcome(res.0), res.1) == after_download(path@, dir@, *end),
{
    match end {
        DownloadEnd::NotStarted { cause } => {
            let mut message = "download failed: ".to_string();
            message.append(cause.as_str());
            (Err(RemoteError { kind: ErrorKind::OfCause, message }), false)
        },
        DownloadEnd::Failed => (Err(other_error("download failed".to_string())), true),
        DownloadEnd::BadChecksum { cause } => {
            let mut message =
                "downloaded remote asset checksum verification failed: ".to_string();
            message.append(cause.as_str());
            (Err(RemoteError { kind: ErrorKind::OfCause, message }), true)
        },
        DownloadEnd::Fetched => (Ok(InstallSource::temporary(path, dir)), false),
    }
}

/// The paths of an installation are what stands before the first NUL and between that and the
/// second one, or the end, whatever follows. Both have to be there and to be valid text, and
/// the error about one that is not tells which.
pub proof fn law_install_paths_stand_between_nuls(tmp: Seq<u8>, dest: Seq<u8>, rest: Seq<u8>)
    requires
        forall|i: int| 0 <= i < tmp.len() ==> tmp[i] != 0,
        forall|i: int| 0 <= i < dest.len() ==> dest[i] != 0,
    ensures
        ({
            let open = install_paths(tmp + seq![0u8] + dest);
            let closed = install_paths(tmp + seq![0u8] + (dest + seq![0u8] + rest));
            &&& open == closed
            &&& tmp.len() == 0 || dest.len() == 0 ==> closed is Err
            &&& tmp.len() > 0 && dest.len() > 0 && valid_utf8(tmp) && valid_utf8(dest) ==> closed
                == Ok::<(Seq<char>, Seq<char>), report::ErrorModel>(
                (decode_utf8(tmp), decode_utf8(dest)),
            )
            &&& tmp.len() > 0 && dest.len() > 0 && !valid_utf8(tmp) ==> closed is Err
                && closed->Err_0.kind is Other && text::begins_with(
                closed->Err_0.message,
                "remote install temporary path is not valid UTF-8: "@,
            ) && text::ends_in(closed->Err_0.message, text::utf8_complaint(tmp))
            &&& tmp.len() > 0 && dest.len() > 0 && valid_utf8(tmp) && !valid_utf8(dest)
                ==> closed is Err && closed->Err_0.kind is Other && text::begins_with(
                closed->Err_0.message,
                "remote install destination path is not valid UTF-8: "@,
            ) && text::ends_in(closed->Err_0.message, text::utf8_complaint(dest))
        }),
        install_paths(tmp) is Err,
{
    let tail = dest + seq![0u8] + rest;
    let closed = tmp + seq![0u8] + tail;
    let open = tmp + seq![0u8] + dest;
    let n = tmp.len() as int;
    assert forall|i: int| 0 <= i < n implies closed[i] != 0 && open[i] != 0 by {
        assert(closed[i] == tmp[i] && open[i] == tmp[i]);
    }
    lemma_nul_position(closed, n);
    lemma_nul_position(open, n);
    assert(before_nul(closed) =~= tmp);
    assert(before_nul(open) =~= tmp);
    assert(behind_nul(closed) =~= tail);
    assert(behind_nul(open) =~= dest);
    assert forall|i: int| 0 <= i < dest.len() implies tail[i] != 0 by {
        assert(tail[i] == dest[i]);
    }
    lemma_nul_position(tail, dest.len() as int);
    lemma_nul_position(dest, dest.len() as int);
    assert(before_nul(tail) =~= dest);
    assert(before_nul(dest) =~= dest);
    lemma_nul_position(tmp, n);
    assert(behind_nul(tmp) =~= Seq::<u8>::empty());
    let first = text::utf8_complaint(tmp);
    let second = text::utf8_complaint(dest);
    let one = "remote install temporary path is not valid UTF-8: "@;
    let other = "remote install destination path is not valid UTF-8: "@;
    text::law_begins_and_ends(first, one, first);
    text::law_begins_and_ends(first, first, one);
    text::law_begins_and_ends(second, other, second);
    text::law_begins_and_ends(second, second, other);
}

/// A preparing script that failed leads to no paths, whatever it wrote.
pub proof fn law_failed_preparation_has_no_paths(output: CommandOutput)
    ensures
        !output.success ==> paths_prepared(output) is Err && text::begins_with(
            paths_prepared(output)->Err_0.message,
            "remote install preparation failed: "@,
        ),
        output.success ==> paths_prepared(output) == install_paths(output.stdout@),
{
    reveal_strlit("remote install preparation failed");
    reveal_strlit(": ");
    reveal_strlit("remote install preparation failed: ");
    assert("remote install preparation failed"@ + ": "@ =~= "remote install preparation failed: "@);
    report::law_command_error_tells_what_failed("remote install preparation failed"@, output);
}

/// The binary is put in place exactly when all of it was sent and the command that takes it
/// succeeded. What failed otherwise is told: the start, the end, the input, or what failed
/// as it was reported.
pub proof fn law_binary_is_put_in_place_when_all_was_sent(
    tmp_path: Seq<char>,
    dest_path: Seq<char>,
    end: StreamEnd,
)
    ensures
        ({
            let next = after_stream(tmp_path, dest_path, end);
            match end {
                StreamEnd::NotStarted { cause } => next matches Err(
                    report::FailureModel::Own(error),
                ) && error.kind is OfCause && text::ends_in(error.message, cause@),
                StreamEnd::Lost => next == Err::<Seq<char>, report::FailureModel>(
                    report::FailureModel::Cause,
                ),
                StreamEnd::Ended { copied, success, status } => {
                    &&& copied is All && success ==> next == Ok::<Seq<char>, report::FailureModel>(
                        commit_script(tmp_path, dest_path),
                    )
                    &&& copied is All && !success ==> (next matches Err(
                        report::FailureModel::Own(error),
                    ) && error.kind is Other && text::ends_in(error.message, status@))
                    &&& copied is NoInput ==> (next matches Err(report::FailureModel::Own(error))
                        && error.kind is BrokenPipe)
                    &&& copied is Failed ==> next == Err::<Seq<char>, report::FailureModel>(
                        report::FailureModel::Cause,
                    )
                },
            }
        }),
{
    match end {
        StreamEnd::NotStarted { cause } => {
            text::law_begins_and_ends(cause@, cause@, "failed to start ssh install: "@);
        },
        StreamEnd::Lost => {},
        StreamEnd::Ended { status, .. } => {
            text::law_begins_and_ends(status@, status@, "remote install exited with "@);
        },
    }
}

/// A file that the user names is described by its path, and a released one by this client's
/// version and channel and the platform that it is for.
pub proof fn law_source_is_described(
    client: ClientBuild,
    platform: host::PlatformModel,
    path: Seq<char>,
    local_binary: bool,
)
    ensures
        source_description(client, platform, Some(path), local_binary)
            == "HERDR_REMOTE_BINARY"@ + " ("@ + path + ")"@,
        ({
            let released = source_description(client, platform, None, false);
            &&& text::mentions(released, client.version@)
            &&& text::mentions(released, client.channel@)
            &&& text::ends_in(released, platform.os + "-"@ + platform.arch)
        }),
{
    let version = client.version@;
    let channel = client.channel@;
    let asset = platform.os + "-"@ + platform.arch;
    let all = "the "@ + version + " "@ + channel + " asset for "@ + asset;
    text::lemma_mentions("the "@, version, " "@ + channel + " asset for "@ + asset);
    assert("the "@ + version + (" "@ + channel + " asset for "@ + asset) =~= all);
    text::lemma_mentions("the "@ + version + " "@, channel, " asset for "@ + asset);
    assert("the "@ + version + " "@ + channel + (" asset for "@ + asset) =~= all);
    text::law_begins_and_ends(
        asset,
        asset,
        "the "@ + version + " "@ + channel + " asset for "@,
    );
}

/// The path that the user's variable names is wanted as it stands. An empty one is an error
/// about the input, and so is one that is not a file. Without the variable there is none.
pub proof fn law_named_file_is_wanted(path: Seq<char>, cause: Seq<char>)
    ensures
        path.len() > 0 ==> override_wanted(Some(path)) == Ok::<
            Option<Seq<char>>,
            report::ErrorModel,
        >(Some(path)),
        path.len() == 0 ==> (override_wanted(Some(path)) matches Err(error)
            && error.kind is InvalidInput),
        override_wanted(None) == Ok::<Option<Seq<char>>, report::ErrorModel>(None),
        override_path(path, Ok(true)) == Ok::<Seq<char>, report::ErrorModel>(path),
        override_path(path, Ok(false)) matches Err(error) && error.kind is InvalidInput
            && text::ends_in(error.message, path),
        override_path(path, Err(cause)) matches Err(error) && error.kind is OfCause
            && text::mentions(error.message, path) && text::ends_in(error.message, cause),
{
    let name = REMOTE_BINARY_ENV_VAR@;
    text::law_begins_and_ends(path, path, name + " path is not a file: "@);
    let front = "failed to inspect "@ + name + " path "@;
    text::lemma_mentions(front, path, ": "@ + cause);
    assert(front + path + (": "@ + cause) =~= front + path + ": "@ + cause);
    text::law_begins_and_ends(cause, cause, front + path + ": "@);
}

/// A download leaves its file, and the directory that is removed with it, exactly when it was
/// fetched with a checksum that is not wrong. Its directory is removed at once exactly when
/// the download was begun and failed.
pub proof fn law_download_leaves_file_or_nothing(
    path: Seq<char>,
    dir: Seq<char>,
    end: DownloadEnd,
)
    ensures
        after_download(path, dir, end).0 is Ok <==> end is Fetched,
        end is Fetched ==> after_download(path, dir, end).0 == Ok::<
            SourceModel,
            report::ErrorModel,
        >(SourceModel { path, temporary_dir: Some(dir) }),
        after_download(path, dir, end).1 <==> end is Failed || end is BadChecksum,
        end matches DownloadEnd::NotStarted { cause } ==> (after_download(path, dir, end).0 matches Err(
            error,
        ) && error.kind is OfCause && text::ends_in(error.message, cause@)),
        end matches DownloadEnd::BadChecksum { cause } ==> (after_download(
            path,
            dir,
            end,
        ).0 matches Err(error) && error.kind is OfCause && text::ends_in(error.message, cause@)),
        end is Failed ==> (after_download(path, dir, end).0 matches Err(error)
            && error.kind is Other),
{
    match end {
        DownloadEnd::NotStarted { cause } => {
            text::law_begins_and_ends(cause@, cause@, "download failed: "@);
        },
        DownloadEnd::BadChecksum { cause } => {
            text::law_begins_and_ends(
                cause@,
                cause@,
                "downloaded remote asset checksum verification failed: "@,
            );
        },
        _ => {},
    }
}

/// The directory of a download is called after this process, the file and the attempt.
pub proof fn law_download_dir_name(pid: u32, asset_key: Seq<char>, attempt: u32)
    ensures
        text::begins_with(
            download_dir(pid, asset_key, attempt),
            "herdr-remote-"@ + text::decimal(pid as nat) + "-"@ + asset_key + "-"@,
        ),
        text::ends_in(download_dir(pid, asset_key, attempt), text::decimal(attempt as nat)),
{
    let front = "herdr-remote-"@ + text::decimal(pid as nat) + "-"@ + asset_key + "-"@;
    let number = text::decimal(attempt as nat);
    text::law_begins_and_ends(number, front, number);
    text::law_begins_and_ends(number, number, front);
}

} // verus!
