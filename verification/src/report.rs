//! What goes wrong, and what a remote command reports.
use crate::text::from_utf8_lossy;
use crate::text::trim;
use crate::text;
use vstd::prelude::*;
use vstd::string::*;

verus! {

/// The kinds of error that callers tell apart.
#[derive(Debug, Clone, Copy, PartialEq, Eq, Structural)]
pub enum ErrorKind {
    Other,
    InvalidInput,
    Interrupted,
    TimedOut,
    BrokenPipe,
    ConnectionAborted,
    AlreadyExists,
    /// The kind of the failure whose text the message ends with.
    OfCause,
}

/// An error with its kind and its message.
#[derive(Debug, Clone, PartialEq, Eq)]
pub struct RemoteError {
    pub kind: ErrorKind,
    pub message: String,
}

/// An error as its kind and its text.
#[verifier::ext_equal]
pub struct ErrorModel {
    pub kind: ErrorKind,
    pub message: Seq<char>,
}

impl DeepView for RemoteError {
    type V = ErrorModel;

    open spec fn deep_view(&self) -> ErrorModel {
        ErrorModel { kind: self.kind, message: self.message@ }
    }
}

/// An error without a kind of its own.
pub open spec fn plain_error(message: Seq<char>) -> ErrorModel {
    ErrorModel { kind: ErrorKind::Other, message }
}

/// The error that `message` tells of, without a kind of its own.
pub fn other_error(message: String) -> (res: RemoteError)
    ensures
        res.deep_view() == plain_error(message@),
{
    RemoteError { kind: ErrorKind::Other, message }
}

/// Why an operation is given up.
#[derive(Debug, Clone, PartialEq, Eq)]
pub enum Failure {
    /// The failure that was just reported, passed on as it is.
    Cause,
    /// An error of this library.
    Own(RemoteError),
}

/// A failure as its text.
pub enum FailureModel {
    Cause,
    Own(ErrorModel),
}

impl DeepView for Failure {
    type V = FailureModel;

    open spec fn deep_view(&self) -> FailureModel {
        match self {
            Failure::Cause => FailureModel::Cause,
            Failure::Own(error) => FailureModel::Own(error.deep_view()),
        }
    }
}

/// A result by what its value and its error say.
pub open spec fn outcome<T: DeepView>(res: Result<T, RemoteError>) -> Result<T::V, ErrorModel> {
    match res {
        Ok(value) => Ok(value.deep_view()),
        Err(error) => Err(error.deep_view()),
    }
}

/// What a finished command left.
#[derive(Debug, Clone, PartialEq, Eq)]
pub struct CommandOutput {
    /// Whether it succeeded.
    pub success: bool,
    /// How its exit is described.
    pub status: String,
    /// What it wrote to its standard output.
    pub stdout: Vec<u8>,
    /// What it wrote to its standard error.
    pub stderr: Vec<u8>,
}

/// The message about a failed command: what it said, or how it exited where it said
/// nothing.
pub open spec fn failure_message(
    context: Seq<char>,
    status: Seq<char>,
    stderr: Seq<char>,
) -> Seq<char> {
    context + ": "@ + (if text::trimmed(stderr).len() == 0 {
        status
    } else {
        text::trimmed(stderr)
    })
}

/// The message about a failed command that wrote `stderr` to its standard error.
pub fn failed_with(context: &str, status: &str, stderr: &str) -> (res: String)
    ensures
        res@ == failure_message(context@, status@, stderr@),
{
    let said = trim(stderr);
    let mut message = context.to_string();
    message.append(": ");
    if said.as_str().is_empty() {
        message.append(status);
    } else {
        message.append(said.as_str());
    }
    message
}

/// The error about a failed command.
pub open spec fn command_error(context: Seq<char>, output: CommandOutput) -> ErrorModel {
    plain_error(failure_message(context, output.status@, text::utf8_lossy(output.stderr@)))
}

/// The error about a failed command.
pub fn command_failed(context: &str, output: &CommandOutput) -> (res: RemoteError)
    ensures
        res.deep_view() == command_error(context@, *output),
{
    let stderr = from_utf8_lossy(output.stderr.as_slice());
    other_error(failed_with(context, output.status.as_str(), stderr.as_str()))
}

/// The message about a failed command is about what the command said, without the white space
/// around it, and about how it exited where it said nothing but white space.
pub proof fn law_failure_message_tells_why(
    context: Seq<char>,
    status: Seq<char>,
    front: Seq<char>,
    said: Seq<char>,
    back: Seq<char>,
)
    requires
        text::all_white(front),
        text::all_white(back),
        text::tight(said),
    ensures
        said.len() > 0 ==> failure_message(context, status, front + said + back) == context + ": "@
            + said,
        said.len() == 0 ==> failure_message(context, status, front + said + back) == context
            + ": "@ + status,
{
    text::law_trimmed_undoes_padding(front, said, back);
}

/// The error about a failed command has no kind of its own, and begins with what failed.
pub proof fn law_command_error_tells_what_failed(context: Seq<char>, output: CommandOutput)
    ensures
        command_error(context, output).kind is Other,
        text::begins_with(command_error(context, output).message, context + ": "@),
        command_error(context, output).message == failure_message(
            context,
            output.status@,
            text::utf8_lossy(output.stderr@),
        ),
{
    let said = text::trimmed(text::utf8_lossy(output.stderr@));
    let why = if said.len() == 0 {
        output.status@
    } else {
        said
    };
    text::law_begins_and_ends(why, context + ": "@, why);
}

} // verus!
