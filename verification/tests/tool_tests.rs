use jj_backend::errors::JJError;
use jj_backend::tool::{interpret_log_outcome, interpret_status_outcome, ToolOutcome, MAX_CHANGES_LIMIT};

fn exited(code: i32, stdout: &str, stderr: &str) -> ToolOutcome {
    ToolOutcome::Exited {
        code,
        stdout: stdout.to_string(),
        stderr: stderr.to_string(),
    }
}

#[test]
fn status_exit_zero_is_a_valid_repository() {
    assert_eq!(interpret_status_outcome(exited(0, "", "")).unwrap(), true);
}

#[test]
fn status_exit_one_is_not_a_valid_repository() {
    assert_eq!(
        interpret_status_outcome(exited(1, "", "oops")).unwrap_err(),
        JJError::NotAValidRepository,
    );
}

#[test]
fn status_other_exit_code_carries_code_and_stderr() {
    assert_eq!(
        interpret_status_outcome(exited(2, "", "bad args")).unwrap_err(),
        JJError::ToolExitFailure { code: 2, stderr: "bad args".to_string() },
    );
}

#[test]
fn status_signal_and_spawn_failures_are_classified() {
    assert_eq!(
        interpret_status_outcome(ToolOutcome::Signaled).unwrap_err(),
        JJError::ToolTerminatedBySignal,
    );
    assert_eq!(
        interpret_status_outcome(ToolOutcome::NotFound).unwrap_err(),
        JJError::ToolNotFound,
    );
    assert_eq!(
        interpret_status_outcome(ToolOutcome::PermissionDenied).unwrap_err(),
        JJError::PermissionDenied,
    );
    assert_eq!(
        interpret_status_outcome(ToolOutcome::TimedOut).unwrap_err(),
        JJError::ToolTimedOut,
    );
    assert_eq!(
        interpret_status_outcome(ToolOutcome::SpawnFailed { message: "no fork".to_string() })
            .unwrap_err(),
        JJError::ToolExecutionFailed { message: "no fork".to_string() },
    );
}

#[test]
fn log_exit_zero_parses_the_captured_output() {
    let records = interpret_log_outcome(exited(0, "a1\nc1\nfix\nAlice\nts\n---\n", "")).unwrap();
    assert_eq!(records.len(), 1);
    assert_eq!(records[0].change_id, "a1");
    assert_eq!(records[0].description, "fix");
}

#[test]
fn log_exit_zero_with_blank_output_is_empty_success() {
    let records = interpret_log_outcome(exited(0, "", "")).unwrap();
    assert_eq!(records.len(), 0);
}

#[test]
fn log_exit_zero_with_garbage_output_is_no_valid_changes() {
    assert_eq!(
        interpret_log_outcome(exited(0, "nonsense\n---\n", "")).unwrap_err(),
        JJError::NoValidChanges,
    );
}

#[test]
fn log_nonzero_exit_carries_code_and_stderr() {
    assert_eq!(
        interpret_log_outcome(exited(3, "ignored", "broken")).unwrap_err(),
        JJError::ToolExitFailure { code: 3, stderr: "broken".to_string() },
    );
}

#[test]
fn log_spawn_failures_are_classified() {
    assert_eq!(
        interpret_log_outcome(ToolOutcome::Signaled).unwrap_err(),
        JJError::ToolTerminatedBySignal,
    );
    assert_eq!(
        interpret_log_outcome(ToolOutcome::NotFound).unwrap_err(),
        JJError::ToolNotFound,
    );
    assert_eq!(
        interpret_log_outcome(ToolOutcome::PermissionDenied).unwrap_err(),
        JJError::PermissionDenied,
    );
    assert_eq!(
        interpret_log_outcome(ToolOutcome::TimedOut).unwrap_err(),
        JJError::ToolTimedOut,
    );
    assert_eq!(
        interpret_log_outcome(ToolOutcome::SpawnFailed { message: "io".to_string() }).unwrap_err(),
        JJError::ToolExecutionFailed { message: "io".to_string() },
    );
}

#[test]
fn the_log_limit_is_a_fixed_constant() {
    assert_eq!(MAX_CHANGES_LIMIT, 100);
}
