//! Interpretation of the external tool's outcomes.
//!
//! Spawning and waiting on the `jj` child process is the shell's job; it
//! reduces whatever it observed to a `ToolOutcome` of plain values and hands
//! that back.  The functions here are the decision logic: verified, total,
//! and exact for every possible outcome.

use vstd::prelude::*;
use crate::errors::JJError;
use crate::parse::{parse_accepts, parse_jj_log, parse_records};
use crate::record::{record_views, JJChange};

verus! {

/// The number of changes the log subcommand is asked for: a fixed bound, not
/// user-configurable, so that large repositories cannot stall the caller.
pub const MAX_CHANGES_LIMIT: u64 = 100;

/// How one invocation of the external tool ended, as plain values.
#[derive(Debug)]
pub enum ToolOutcome {
    /// The process ran to completion and exited with a code.
    Exited { code: i32, stdout: String, stderr: String },
    /// The process was terminated by a signal before it could exit.
    Signaled,
    /// The tool binary was not found on the search path.
    NotFound,
    /// The operating system refused to execute the tool.
    PermissionDenied,
    /// The invocation timed out.
    TimedOut,
    /// Any other failure to execute the tool.
    SpawnFailed { message: String },
}

/// Interpret the outcome of the status probe (`status --no-pager`).
///
/// Exit code 0 is the only success.  Exit code 1 is the tool's convention
/// for "not a valid repository".  Every other ending maps to exactly one
/// error, with the exit code and captured standard error preserved.
pub fn interpret_status_outcome(outcome: ToolOutcome) -> (r: Result<bool, JJError>)
    ensures
        outcome matches ToolOutcome::Exited { code, stdout, stderr } ==> {
            &&& (code == 0 ==> r == Ok::<bool, JJError>(true))
            &&& (code == 1 ==> r == Err::<bool, JJError>(JJError::NotAValidRepository))
            &&& (code != 0 && code != 1 ==> r == Err::<bool, JJError>(
                JJError::ToolExitFailure { code, stderr },
            ))
        },
        outcome is Signaled ==> r == Err::<bool, JJError>(JJError::ToolTerminatedBySignal),
        outcome is NotFound ==> r == Err::<bool, JJError>(JJError::ToolNotFound),
        outcome is PermissionDenied ==> r == Err::<bool, JJError>(JJError::PermissionDenied),
        outcome is TimedOut ==> r == Err::<bool, JJError>(JJError::ToolTimedOut),
        outcome matches ToolOutcome::SpawnFailed { message } ==> r == Err::<bool, JJError>(
            JJError::ToolExecutionFailed { message },
        ),
{
    match outcome {
        ToolOutcome::Exited { code, stdout: _, stderr } => {
            if code == 0 {
                Ok(true)
            } else if code == 1 {
                Err(JJError::NotAValidRepository)
            } else {
                Err(JJError::ToolExitFailure { code, stderr })
            }
        },
        ToolOutcome::Signaled => Err(JJError::ToolTerminatedBySignal),
        ToolOutcome::NotFound => Err(JJError::ToolNotFound),
        ToolOutcome::PermissionDenied => Err(JJError::PermissionDenied),
        ToolOutcome::TimedOut => Err(JJError::ToolTimedOut),
        ToolOutcome::SpawnFailed { message } => Err(JJError::ToolExecutionFailed { message }),
    }
}

/// Interpret the outcome of the log subcommand.
///
/// On exit code 0 the captured standard output is parsed, and the parse
/// alone decides between records and `NoValidChanges`.  Every other ending
/// maps to exactly one error.
pub fn interpret_log_outcome(outcome: ToolOutcome) -> (r: Result<Vec<JJChange>, JJError>)
    ensures
        outcome matches ToolOutcome::Exited { code, stdout, stderr } ==> {
            &&& (code == 0 && parse_accepts(stdout@) ==> (r matches Ok(v) && record_views(v@)
                == parse_records(stdout@)))
            &&& (code == 0 && !parse_accepts(stdout@) ==> r == Err::<Vec<JJChange>, JJError>(
                JJError::NoValidChanges,
            ))
            &&& (code != 0 ==> r == Err::<Vec<JJChange>, JJError>(
                JJError::ToolExitFailure { code, stderr },
            ))
        },
        outcome is Signaled ==> r == Err::<Vec<JJChange>, JJError>(
            JJError::ToolTerminatedBySignal,
        ),
        outcome is NotFound ==> r == Err::<Vec<JJChange>, JJError>(JJError::ToolNotFound),
        outcome is PermissionDenied ==> r == Err::<Vec<JJChange>, JJError>(
            JJError::PermissionDenied,
        ),
        outcome is TimedOut ==> r == Err::<Vec<JJChange>, JJError>(JJError::ToolTimedOut),
        outcome matches ToolOutcome::SpawnFailed { message } ==> r == Err::<
            Vec<JJChange>,
            JJError,
        >(JJError::ToolExecutionFailed { message }),
{
    match outcome {
        ToolOutcome::Exited { code, stdout, stderr } => {
            if code == 0 {
                parse_jj_log(stdout.as_str())
            } else {
                Err(JJError::ToolExitFailure { code, stderr })
            }
        },
        ToolOutcome::Signaled => Err(JJError::ToolTerminatedBySignal),
        ToolOutcome::NotFound => Err(JJError::ToolNotFound),
        ToolOutcome::PermissionDenied => Err(JJError::PermissionDenied),
        ToolOutcome::TimedOut => Err(JJError::ToolTimedOut),
        ToolOutcome::SpawnFailed { message } => Err(JJError::ToolExecutionFailed { message }),
    }
}

} // verus!
