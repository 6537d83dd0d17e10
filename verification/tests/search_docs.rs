use horse::outcome::ExecutionOutcome;
use horse::search_docs::{SearchDocs, SearchDocsArgs, SearchDocsError};

fn args(query: &str, path: Option<&str>) -> SearchDocsArgs {
    SearchDocsArgs {
        query: String::from(query),
        path: path.map(String::from),
    }
}

#[test]
fn test_search_plan_rejects_empty_query() {
    let sd = SearchDocs::new(String::from("."));
    assert_eq!(sd.plan(&args("", None)), Err(SearchDocsError::EmptyQuery));
    assert_eq!(sd.plan(&args("   ", None)), Err(SearchDocsError::EmptyQuery));
}

#[test]
fn test_search_plan_argv_defaults_to_current_dir() {
    let sd = SearchDocs::new(String::from("."));
    let argv = sd.plan(&args("invoice", None)).unwrap();
    assert_eq!(
        argv,
        vec!["-i", "--max-count", "100", "--context", "2", "--color", "never", "invoice", "."]
    );
}

#[test]
fn test_search_plan_argv_uses_given_path() {
    let sd = SearchDocs::new(String::from("."));
    let argv = sd.plan(&args("invoice", Some("docs/"))).unwrap();
    assert_eq!(
        argv,
        vec!["-i", "--max-count", "100", "--context", "2", "--color", "never", "invoice", "docs/"]
    );
}

#[test]
fn test_search_no_matches_is_success() {
    let sd = SearchDocs::new(String::from("."));
    let outcome = ExecutionOutcome::NonZeroExit {
        code: 1,
        stdout: String::new(),
        stderr: String::new(),
    };
    assert_eq!(sd.interpret(outcome), Ok(String::from("No matches found")));
}

#[test]
fn test_search_missing_binary_is_distinct_error() {
    let sd = SearchDocs::new(String::from("."));
    let outcome = ExecutionOutcome::NonZeroExit {
        code: 127,
        stdout: String::new(),
        stderr: String::from("sh: rga: not found"),
    };
    assert_eq!(sd.interpret(outcome), Err(SearchDocsError::RgaNotInstalled));
    let outcome = ExecutionOutcome::LaunchFailed {
        not_found: true,
        message: String::from("No such file or directory"),
    };
    assert_eq!(sd.interpret(outcome), Err(SearchDocsError::RgaNotInstalled));
}

#[test]
fn test_search_success_returns_stdout() {
    let sd = SearchDocs::new(String::from("."));
    let outcome = ExecutionOutcome::Success {
        stdout: String::from("report.pdf: 3: total due"),
        stderr: String::new(),
    };
    assert_eq!(sd.interpret(outcome), Ok(String::from("report.pdf: 3: total due")));
}

#[test]
fn test_search_failure_carries_code_and_stderr() {
    let sd = SearchDocs::new(String::from("."));
    let outcome = ExecutionOutcome::NonZeroExit {
        code: 2,
        stdout: String::new(),
        stderr: String::from("regex parse error"),
    };
    assert_eq!(
        sd.interpret(outcome),
        Err(SearchDocsError::SearchFailed(
            2,
            String::from("regex parse error")
        ))
    );
}

#[test]
fn test_search_signal_uses_sentinel_code() {
    let sd = SearchDocs::new(String::from("."));
    let outcome = ExecutionOutcome::Signaled {
        stdout: String::new(),
        stderr: String::from("killed"),
    };
    assert_eq!(
        sd.interpret(outcome),
        Err(SearchDocsError::SearchFailed(-1, String::from("killed")))
    );
}

#[test]
fn test_search_timeout() {
    let sd = SearchDocs::new(String::from("."));
    assert_eq!(
        sd.interpret(ExecutionOutcome::TimedOut),
        Err(SearchDocsError::Timeout(30))
    );
}

#[test]
fn test_search_other_launch_failure_is_io() {
    let sd = SearchDocs::new(String::from("."));
    let outcome = ExecutionOutcome::LaunchFailed {
        not_found: false,
        message: String::from("Permission denied"),
    };
    assert_eq!(
        sd.interpret(outcome),
        Err(SearchDocsError::Io(String::from("Permission denied")))
    );
}
