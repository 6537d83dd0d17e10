use horse::bash::{BashCommand, BashCommandError, ExecPlan};
use horse::outcome::ExecutionOutcome;

#[test]
fn test_plan_direct_for_plain_command() {
    let bash = BashCommand::new(String::from("."));
    match bash.plan("ls -la src") {
        Ok(ExecPlan::Direct(parts)) => assert_eq!(parts, vec!["ls", "-la", "src"]),
        _ => panic!("expected a direct plan"),
    }
}

#[test]
fn test_plan_shell_for_pipeline() {
    let bash = BashCommand::new(String::from("."));
    match bash.plan("cat file.txt | head -n 10") {
        Ok(ExecPlan::Shell(line)) => assert_eq!(line, "cat file.txt | head -n 10"),
        _ => panic!("expected a shell plan"),
    }
}

#[test]
fn test_plan_shell_even_for_quoted_pipe() {
    let bash = BashCommand::new(String::from("."));
    // any pipe character routes through the shell, quoted or not
    match bash.plan("grep -E 'A|B' notes.txt") {
        Ok(ExecPlan::Shell(line)) => assert_eq!(line, "grep -E 'A|B' notes.txt"),
        _ => panic!("expected a shell plan"),
    }
}

#[test]
fn test_plan_rejects_before_execution() {
    let bash = BashCommand::new(String::from("."));
    assert!(matches!(
        bash.plan("ls; rm -rf /"),
        Err(BashCommandError::ForbiddenPattern(_))
    ));
    assert!(matches!(
        bash.plan("evil"),
        Err(BashCommandError::CommandNotAllowed(_, _))
    ));
    assert!(matches!(
        bash.plan(""),
        Err(BashCommandError::EmptyCommand)
    ));
}

fn success(stdout: &str, stderr: &str) -> ExecutionOutcome {
    ExecutionOutcome::Success {
        stdout: String::from(stdout),
        stderr: String::from(stderr),
    }
}

#[test]
fn test_interpret_success_stdout_only() {
    let bash = BashCommand::new(String::from("."));
    assert_eq!(bash.interpret(success("hello\n", "")), Ok(String::from("hello\n")));
}

#[test]
fn test_interpret_success_combines_streams() {
    let bash = BashCommand::new(String::from("."));
    assert_eq!(
        bash.interpret(success("out", "warning")),
        Ok(String::from("out\n--- stderr ---\nwarning"))
    );
}

#[test]
fn test_interpret_success_stderr_only() {
    let bash = BashCommand::new(String::from("."));
    // with empty stdout the stderr text stands alone, without a separator
    assert_eq!(
        bash.interpret(success("", "warning")),
        Ok(String::from("warning"))
    );
}

#[test]
fn test_interpret_failure_prefers_stderr() {
    let bash = BashCommand::new(String::from("."));
    let outcome = ExecutionOutcome::NonZeroExit {
        code: 2,
        stdout: String::from("partial"),
        stderr: String::from("grep: bad pattern"),
    };
    assert_eq!(
        bash.interpret(outcome),
        Err(BashCommandError::CommandFailed(
            2,
            String::from("grep: bad pattern")
        ))
    );
    let outcome = ExecutionOutcome::NonZeroExit {
        code: 3,
        stdout: String::from("partial"),
        stderr: String::new(),
    };
    assert_eq!(
        bash.interpret(outcome),
        Err(BashCommandError::CommandFailed(3, String::from("partial")))
    );
}

#[test]
fn test_interpret_timeout() {
    let bash = BashCommand::new(String::from("."));
    assert_eq!(
        bash.interpret(ExecutionOutcome::TimedOut),
        Err(BashCommandError::Timeout(30))
    );
}

#[test]
fn test_interpret_signaled_uses_sentinel_code() {
    let bash = BashCommand::new(String::from("."));
    let outcome = ExecutionOutcome::Signaled {
        stdout: String::new(),
        stderr: String::from("killed"),
    };
    assert_eq!(
        bash.interpret(outcome),
        Err(BashCommandError::CommandFailed(-1, String::from("killed")))
    );
}

#[test]
fn test_interpret_launch_failure() {
    let bash = BashCommand::new(String::from("."));
    let outcome = ExecutionOutcome::LaunchFailed {
        not_found: true,
        message: String::from("No such file or directory"),
    };
    assert_eq!(
        bash.interpret(outcome),
        Err(BashCommandError::Io(String::from(
            "No such file or directory"
        )))
    );
}

#[test]
fn test_from_exit_classification() {
    let out = ExecutionOutcome::from_exit(Some(0), String::from("o"), String::from("e"));
    assert!(matches!(out, ExecutionOutcome::Success { .. }));
    let out = ExecutionOutcome::from_exit(Some(7), String::from("o"), String::from("e"));
    match out {
        ExecutionOutcome::NonZeroExit { code, .. } => assert_eq!(code, 7),
        _ => panic!("expected NonZeroExit"),
    }
    let out = ExecutionOutcome::from_exit(None, String::from("o"), String::from("e"));
    assert!(matches!(out, ExecutionOutcome::Signaled { .. }));
}
