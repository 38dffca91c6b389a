//! How a finished process is described.
use vstd::prelude::*;

verus! {

/// Payload for the [`CommandEvent::Terminated`](crate::event::CommandEvent::Terminated) command
/// event.
#[derive(Debug, Clone)]
pub struct TerminatedPayload {
    /// Exit code of the process.
    pub code: Option<i32>,
    /// If the process was terminated by a signal, represents that signal.
    pub signal: Option<i32>,
}

/// Describes the result of a process after it has terminated.
#[derive(Debug)]
pub struct ExitStatus {
    // Callers learn the code from `code` and nothing else of the status.
    code: Option<i32>,
}

impl View for ExitStatus {
    type V = Option<i32>;

    /// An exit status is its exit code.
    closed spec fn view(&self) -> Option<i32> {
        self.code
    }
}

impl ExitStatus {
    /// The status of a process that ended with `code`, or with no code at all.
    pub(crate) fn from_code(code: Option<i32>) -> (status: ExitStatus)
        ensures
            status@ == code,
    {
        ExitStatus { code }
    }

    /// Returns the exit code of the process, if any.
    pub fn code(&self) -> (code: Option<i32>)
        ensures
            code == self@,
    {
        self.code
    }

    /// Returns true if exit status is zero. Signal termination is not considered a success, and
    /// success is defined as a zero exit status.
    pub fn success(&self) -> (ok: bool)
        ensures
            ok <==> self@ == Some(0i32),
    {
        self.code == Some(0)
    }
}

/// The output of a finished process.
#[derive(Debug)]
pub struct Output {
    /// The status (exit code) of the process.
    pub status: ExitStatus,
    /// The data that the process wrote to stdout.
    pub stdout: Vec<u8>,
    /// The data that the process wrote to stderr.
    pub stderr: Vec<u8>,
}

/// An [`Output`] as the contracts speak of it.
#[verifier::ext_equal]
pub struct OutputView {
    /// The exit code.
    pub code: Option<i32>,
    /// The bytes collected from stdout.
    pub stdout: Seq<u8>,
    /// The bytes collected from stderr.
    pub stderr: Seq<u8>,
}

impl View for Output {
    type V = OutputView;

    open spec fn view(&self) -> OutputView {
        OutputView { code: self.status@, stdout: self.stdout@, stderr: self.stderr@ }
    }
}

/// The contracts see of an output what it holds.
pub proof fn law_output_view(output: Output)
    ensures
        output@.code == output.status@,
        output@.stdout == output.stdout@,
        output@.stderr == output.stderr@,
{
}

} // verus!
