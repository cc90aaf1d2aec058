//! The error taxonomy of the backend.

use vstd::prelude::*;

verus! {

/// A classified failure of one backend operation.
///
/// The first six variants are path-validation failures, reported before any
/// filesystem access beyond the checks themselves.  `NotARepository` and
/// `MalformedRepositoryStructure` come from the structural probe.  The
/// tool-prefixed variants (and `NotAValidRepository`, the tool's exit code 1)
/// classify failures of the external `jj` invocation.  `NoValidChanges` is the
/// parser's only fatal error: non-blank log output in which every entry was
/// malformed.
#[derive(Debug, PartialEq)]
pub enum JJError {
    EmptyPath,
    UnsafePattern,
    InvalidCharacters,
    InvalidOrInaccessible,
    PathNotFound,
    NotADirectory,
    NotARepository,
    MalformedRepositoryStructure,
    NotAValidRepository,
    ToolNotFound,
    PermissionDenied,
    ToolTimedOut,
    ToolTerminatedBySignal,
    ToolExitFailure { code: i32, stderr: String },
    ToolExecutionFailed { message: String },
    NoValidChanges,
}

} // verus!
