//! The document-search capability: argument construction for the external
//! content-search utility and the mapping from its exit status to a
//! result-or-error, with "no matches" a successful empty result.

use vstd::prelude::*;

use crate::outcome::ExecutionOutcome;
use crate::text::{trim_of, trim_seq};

verus! {

/// Wall-clock deadline, in seconds, for one search.
pub const TIMEOUT_SECS: u64 = 30;

/// Ceiling on the number of matches requested per search.
pub const MAX_COUNT: usize = 100;

/// Context lines requested around each match.
pub const CONTEXT_LINES: usize = 2;

/// Arguments of one document-search call.
pub struct SearchDocsArgs {
    /// The search query/pattern to find in documents.
    pub query: String,
    /// Optional path or glob pattern to search in (defaults to the current
    /// directory).
    pub path: Option<String>,
}

/// Everything that can go wrong in one document-search call.
#[derive(Debug, PartialEq)]
pub enum SearchDocsError {
    /// The search binary is not installed.
    RgaNotInstalled,
    /// The query was empty after trimming.
    EmptyQuery,
    /// The deadline, in seconds, that expired.
    Timeout(u64),
    /// Description of a launch or read failure.
    Io(String),
    /// Exit code and captured stderr of a failed search.
    SearchFailed(i32, String),
}

/// The document-search capability, confined to one base directory.
pub struct SearchDocs {
    base_dir: String,
}

/// The search path actually used: the caller's, or the current directory.
pub open spec fn search_path_view(path: Option<String>) -> Seq<char> {
    match path {
        Some(p) => p@,
        None => "."@,
    }
}

/// The argument vector handed to the search utility: case-insensitive, with
/// the match ceiling, the context-line count, colors off, then the query and
/// the search path.
pub open spec fn search_argv(query: Seq<char>, path: Option<String>) -> Seq<Seq<char>> {
    seq![
        "-i"@,
        "--max-count"@,
        "100"@,
        "--context"@,
        "2"@,
        "--color"@,
        "never"@,
        query,
        search_path_view(path),
    ]
}

impl SearchDocs {
    /// The directory every search is confined to.
    pub closed spec fn base(&self) -> Seq<char> {
        self.base_dir@
    }

    pub fn new(base_dir: String) -> (r: SearchDocs)
        ensures
            r.base() == base_dir@,
    {
        SearchDocs { base_dir }
    }

    pub fn base_dir(&self) -> (r: &str)
        ensures
            r@ == self.base(),
    {
        self.base_dir.as_str()
    }

    /// Reject a blank query, else build the argument vector for the search
    /// utility.
    pub fn plan(&self, args: &SearchDocsArgs) -> (r: Result<Vec<String>, SearchDocsError>)
        ensures
            r is Err <==> trim_seq(args.query@).len() == 0,
            r is Err ==> r == Err::<Vec<String>, SearchDocsError>(SearchDocsError::EmptyQuery),
            r matches Ok(argv) ==> argv.deep_view() == search_argv(args.query@, args.path),
    {
        if trim_of(args.query.as_str()).unicode_len() == 0 {
            return Err(SearchDocsError::EmptyQuery);
        }
        let mut argv: Vec<String> = Vec::new();
        argv.push(String::from_str("-i"));
        argv.push(String::from_str("--max-count"));
        argv.push(String::from_str("100"));
        argv.push(String::from_str("--context"));
        argv.push(String::from_str("2"));
        argv.push(String::from_str("--color"));
        argv.push(String::from_str("never"));
        argv.push(args.query.clone());
        match &args.path {
            Some(p) => argv.push(p.clone()),
            None => argv.push(String::from_str(".")),
        }
        proof {
            assert(argv.deep_view() =~= search_argv(args.query@, args.path));
        }
        Ok(argv)
    }

    /// Map the outcome of a bounded search to this capability's result: exit
    /// code 0 yields the captured output, the utility's "no matches" code 1
    /// a successful empty-result message, code 127 or a missing binary the
    /// distinct not-installed error, and any other failure its exit code
    /// (with `-1` standing for a signal termination) and captured stderr.
    pub fn interpret(&self, outcome: ExecutionOutcome) -> (r: Result<String, SearchDocsError>)
        ensures
            match outcome {
                ExecutionOutcome::Success { stdout, stderr } => r matches Ok(out) && out@
                    == stdout@,
                ExecutionOutcome::NonZeroExit { code, stdout, stderr } => {
                    if code == 1 {
                        r matches Ok(out) && out@ == "No matches found"@
                    } else if code == 127 {
                        r == Err::<String, SearchDocsError>(SearchDocsError::RgaNotInstalled)
                    } else {
                        r matches Err(SearchDocsError::SearchFailed(c, d)) && c == code && d@
                            == stderr@
                    }
                },
                ExecutionOutcome::Signaled { stdout, stderr } => r matches Err(
                    SearchDocsError::SearchFailed(c, d),
                ) && c == -1 && d@ == stderr@,
                ExecutionOutcome::TimedOut => r == Err::<String, SearchDocsError>(
                    SearchDocsError::Timeout(TIMEOUT_SECS),
                ),
                ExecutionOutcome::LaunchFailed { not_found, message } => {
                    if not_found {
                        r == Err::<String, SearchDocsError>(SearchDocsError::RgaNotInstalled)
                    } else {
                        r matches Err(SearchDocsError::Io(m)) && m@ == message@
                    }
                },
            },
    {
        match outcome {
            ExecutionOutcome::Success { stdout, stderr: _ } => Ok(stdout),
            ExecutionOutcome::NonZeroExit { code, stdout: _, stderr } => {
                if code == 1 {
                    Ok(String::from_str("No matches found"))
                } else if code == 127 {
                    Err(SearchDocsError::RgaNotInstalled)
                } else {
                    Err(SearchDocsError::SearchFailed(code, stderr))
                }
            },
            ExecutionOutcome::Signaled { stdout: _, stderr } => Err(
                SearchDocsError::SearchFailed(-1, stderr),
            ),
            ExecutionOutcome::TimedOut => Err(SearchDocsError::Timeout(TIMEOUT_SECS)),
            ExecutionOutcome::LaunchFailed { not_found, message } => {
                if not_found {
                    Err(SearchDocsError::RgaNotInstalled)
                } else {
                    Err(SearchDocsError::Io(message))
                }
            },
        }
    }
}

} // verus!
