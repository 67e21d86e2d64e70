//! The bounded process runner's data model: what an invocation asks for,
//! what it produced, and the decision taken when the wall-clock race ends.
//! Spawning, stream draining and killing live outside the library; they hand
//! these plain values back.

use vstd::prelude::*;
use vstd::string::StrSliceExecFns;
use vstd::string::StringExecFns;

verus! {

/// Cap on each captured stream, in bytes; data beyond it is dropped.
pub const STREAM_CAP: usize = 2 * 1024 * 1024;

/// How many bytes one read of a child stream asks for at most.
pub const READ_CHUNK: usize = 8192;

/// One bounded, timeout-aware execution of an external program.
pub struct InvocationRequest {
    /// The program to run.
    pub program: String,
    /// Its argument list, in order.
    pub args: Vec<String>,
    /// Payload written to the child's input stream, which is then closed;
    /// `None` leaves the stream empty.
    pub input: Option<String>,
    /// Wall-clock limit in seconds; 0 means no limit.
    pub timeout_secs: u64,
    /// Whether the child's output stream is drained into a capped buffer.
    pub capture_stdout: bool,
    /// Whether the child's error stream is drained into a capped buffer.
    pub capture_stderr: bool,
}

/// What `wait` reported of a finished child.
#[derive(Clone, Copy)]
pub struct ExitInfo {
    /// Whether the child exited successfully.
    pub success: bool,
    /// The numeric exit code, absent when the child was ended by a signal.
    pub code: Option<i32>,
}

/// The outcome of one invocation: exit status and both captured streams.
#[derive(Debug)]
pub struct InvocationResult {
    /// Whether the child exited successfully.
    pub success: bool,
    /// The numeric exit code, absent when the child was ended by a signal.
    pub code: Option<i32>,
    /// Captured output bytes, at most [`STREAM_CAP`] of them.
    pub stdout: Vec<u8>,
    /// Captured error bytes, at most [`STREAM_CAP`] of them.
    pub stderr: Vec<u8>,
}

/// The library's error taxonomy: fatal conditions only; degraded context
/// sources and parse failures are absorbed where they occur.
#[derive(Debug)]
pub enum RalphError {
    /// A required executable could not be located.
    RunnerNotFound(String),
    /// The invocation exceeded its wall-clock limit and the child was killed.
    TimedOut,
    /// The agent backend exited with a non-zero code.
    RunnerFailed(i32),
    /// No proposal could be extracted from the inference output.
    InferenceFailed,
}

/// The message printed for each error.
pub open spec fn spec_error_message(e: RalphError) -> Seq<char> {
    match e {
        RalphError::RunnerNotFound(name) => "Runner not found: "@ + name@,
        RalphError::TimedOut => "Runner timed out"@,
        RalphError::RunnerFailed(code) => "Runner exited with code "@ + crate::fmt::spec_decimal_int(
            code as int,
        ),
        RalphError::InferenceFailed => "Inference failed"@,
    }
}

impl RalphError {
    /// The human-readable message for this error.
    pub fn message(&self) -> (r: String)
        ensures
            r@ == spec_error_message(*self),
    {
        match self {
            RalphError::RunnerNotFound(name) => {
                let mut r = String::from_str("Runner not found: ");
                r.append(name.as_str());
                r
            },
            RalphError::TimedOut => String::from_str("Runner timed out"),
            RalphError::RunnerFailed(code) => {
                let mut r = String::from_str("Runner exited with code ");
                let digits = crate::fmt::i32_to_string(*code);
                r.append(digits.as_str());
                r
            },
            RalphError::InferenceFailed => String::from_str("Inference failed"),
        }
    }
}

/// Settles an invocation once the race between child exit and timer is over:
/// a child that never exited within its limit is a distinct timeout error,
/// never a partial result; a child that exited yields its status and both
/// drained streams, whatever the exit code was.
pub fn finish_invocation(waited: Option<ExitInfo>, stdout: Vec<u8>, stderr: Vec<u8>) -> (r: Result<
    InvocationResult,
    RalphError,
>)
    ensures
        waited is None <==> r matches Err(RalphError::TimedOut),
        waited matches Some(e) ==> r matches Ok(res) && res.success == e.success && res.code
            == e.code && res.stdout@ == stdout@ && res.stderr@ == stderr@,
{
    match waited {
        Option::Some(e) => Result::Ok(
            InvocationResult { success: e.success, code: e.code, stdout, stderr },
        ),
        Option::None => Result::Err(RalphError::TimedOut),
    }
}

} // verus!
