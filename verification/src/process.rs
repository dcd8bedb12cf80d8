//! External commands: what to run, and what came back.

use vstd::prelude::*;
use vstd::utf8::{decode_utf8, valid_utf8};

use crate::error::{BusyNasError, ErrorView, Result};
use crate::text::{chars_of, owned, strs, trim, trim_chars};

verus! {

/// The text that `String::from_utf8_lossy` makes of `bytes`.
pub uninterp spec fn lossy_text(bytes: Seq<u8>) -> Seq<char>;

/// `String::from_utf8_lossy`: the bytes decoded as UTF-8, with each invalid
/// sequence replaced by U+FFFD. Stated: the result is named by `lossy_text`, and
/// valid UTF-8 decodes unchanged (std's documentation says so); the replacement of
/// invalid sequences is left unsaid.
#[verifier::external_body]
pub(crate) fn utf8_lossy(bytes: &[u8]) -> (s: String)
    ensures
        s@ == lossy_text(bytes@),
        valid_utf8(bytes@) ==> s@ == decode_utf8(bytes@),
{
    String::from_utf8_lossy(bytes).into_owned()
}

/// A program with its arguments, each kept apart (no shell is involved).
#[derive(Clone, Debug, PartialEq, Eq)]
pub struct CommandSpec {
    pub program: String,
    pub args: Vec<String>,
    pub stdin: Option<Vec<u8>>,
    /// Whether the command's own output is shown to the user as it runs.
    pub stream_output: bool,
}

pub struct CommandView {
    pub program: Seq<char>,
    pub args: Seq<Seq<char>>,
    pub stdin: Option<Seq<u8>>,
    pub stream_output: bool,
}

impl View for CommandSpec {
    type V = CommandView;

    open spec fn view(&self) -> CommandView {
        CommandView {
            program: self.program@,
            args: strs(self.args@),
            stdin: match self.stdin {
                Some(b) => Some(b@),
                None => None,
            },
            stream_output: self.stream_output,
        }
    }
}

impl CommandSpec {
    pub fn new(program: String, args: Vec<String>) -> (c: CommandSpec)
        ensures
            c@ == (CommandView {
                program: program@,
                args: strs(args@),
                stdin: None,
                stream_output: false,
            }),
    {
        CommandSpec { program, args, stdin: None, stream_output: false }
    }

    pub fn with_stdin(self, stdin: Vec<u8>) -> (c: CommandSpec)
        ensures
            c@ == (CommandView { stdin: Some(stdin@), ..self@ }),
    {
        CommandSpec { stdin: Some(stdin), ..self }
    }
}

#[derive(Clone, Debug)]
pub struct CommandOutput {
    pub success: bool,
    pub status: i32,
    pub stdout: Vec<u8>,
    pub stderr: Vec<u8>,
}

pub struct OutputView {
    pub success: bool,
    pub status: int,
    pub stdout: Seq<u8>,
    pub stderr: Seq<u8>,
}

impl View for CommandOutput {
    type V = OutputView;

    open spec fn view(&self) -> OutputView {
        OutputView {
            success: self.success,
            status: self.status as int,
            stdout: self.stdout@,
            stderr: self.stderr@,
        }
    }
}

/// What a failed command is reported as.
pub open spec fn failure(program: Seq<char>, output: OutputView) -> ErrorView {
    ErrorView::ProcessFailed {
        program: program,
        status: output.status,
        stderr: trim(lossy_text(output.stderr)),
    }
}

impl CommandOutput {
    /// The error output as text, trimmed.
    pub fn stderr_text(&self) -> (s: String)
        ensures
            s@ == trim(lossy_text(self.stderr@)),
    {
        let raw = utf8_lossy(self.stderr.as_slice());
        let cs = chars_of(raw.as_str());
        trim_chars(&cs)
    }

    /// The standard output as text.
    pub fn stdout_text(&self) -> (s: String)
        ensures
            s@ == lossy_text(self.stdout@),
    {
        utf8_lossy(self.stdout.as_slice())
    }
}

/// The error that a failed command of `program` is reported as.
pub fn failure_error(program: &str, output: &CommandOutput) -> (e: BusyNasError)
    ensures
        e@ == failure(program@, output@),
{
    BusyNasError::ProcessFailed {
        program: owned(program),
        status: output.status,
        stderr: output.stderr_text(),
    }
}

/// The programs that commands run through.
#[derive(Clone, Debug)]
pub struct ProcessRunner {
    pub ssh_program: String,
    pub rsync_program: String,
}

impl ProcessRunner {
    /// `ssh` and `rsync` as found on the search path.
    pub fn system() -> (r: ProcessRunner)
        ensures
            r.ssh_program@ == "ssh"@,
            r.rsync_program@ == "rsync"@,
    {
        ProcessRunner::with_programs(owned("ssh"), owned("rsync"))
    }

    pub fn with_programs(ssh_program: String, rsync_program: String) -> (r: ProcessRunner)
        ensures
            r.ssh_program@ == ssh_program@,
            r.rsync_program@ == rsync_program@,
    {
        ProcessRunner { ssh_program, rsync_program }
    }
}

/// The output of a command that succeeded, or the failure it is reported as.
pub fn require_success(spec: &CommandSpec, output: CommandOutput) -> (r: Result<CommandOutput>)
    ensures
        r is Ok <==> output.success,
        r matches Ok(o) ==> o@ == output@,
        r matches Err(e) ==> e@ == failure(spec.program@, output@),
{
    if output.success {
        Ok(output)
    } else {
        Err(failure_error(spec.program.as_str(), &output))
    }
}

} // verus!
