//! The result of running a bounded process, classified into a small closed
//! taxonomy that the capability façades map onto their error types.

use vstd::prelude::*;

verus! {

/// What became of one bounded process execution. A value is created once per
/// call from the raw exit status and consumed immediately by a façade.
pub enum ExecutionOutcome {
    /// The process exited with code 0.
    Success { stdout: String, stderr: String },
    /// The process exited with a non-zero code.
    NonZeroExit { code: i32, stdout: String, stderr: String },
    /// The process was terminated by a signal, so no exit code exists.
    Signaled { stdout: String, stderr: String },
    /// The wall-clock deadline expired and the process was terminated.
    TimedOut,
    /// The process could not be launched at all; `not_found` distinguishes a
    /// missing binary from other launch failures.
    LaunchFailed { not_found: bool, message: String },
}

impl ExecutionOutcome {
    /// Classify a normal completion by its exit status: code 0 is success,
    /// any other code a non-zero exit, and an absent code (termination by
    /// signal) is kept distinct from every numeric exit code.
    pub fn from_exit(code: Option<i32>, stdout: String, stderr: String) -> (r: ExecutionOutcome)
        ensures
            r == (match code {
                Some(c) => if c == 0 {
                    ExecutionOutcome::Success { stdout, stderr }
                } else {
                    ExecutionOutcome::NonZeroExit { code: c, stdout, stderr }
                },
                None => ExecutionOutcome::Signaled { stdout, stderr },
            }),
    {
        match code {
            Some(c) => {
                if c == 0 {
                    ExecutionOutcome::Success { stdout, stderr }
                } else {
                    ExecutionOutcome::NonZeroExit { code: c, stdout, stderr }
                }
            },
            None => ExecutionOutcome::Signaled { stdout, stderr },
        }
    }
}

} // verus!
