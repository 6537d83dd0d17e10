//! The shell-execution capability: an allow-list/forbidden-pattern command
//! validator, the choice between direct and pipeline execution, and the
//! mapping from a process outcome to the capability's error taxonomy.
//!
//! Validation runs in three passes over the raw command string: an emptiness
//! check on the trimmed text, a quote-insensitive scan for forbidden operator
//! substrings, and a quote-aware split into pipeline stages whose leading
//! tokens must all be on the allow-list.

use vstd::prelude::*;

use crate::outcome::ExecutionOutcome;
use crate::split::{split_stages, split_with_quotes};
use crate::text::{
    char_is_space, contains_substr, first_token, first_token_of, has_substr, lemma_tokens_nonempty,
    lemma_trim_hi_bounds, lemma_trim_lo_bounds, lemma_trim_preserves_substr, split_whitespace_of,
    str_eq, tokens_from, trim_of, trim_seq,
};

verus! {

/// Wall-clock deadline, in seconds, for one shell execution.
pub const TIMEOUT_SECS: u64 = 30;

/// The command names a pipeline stage may start with.
pub open spec fn allowed_names() -> Seq<Seq<char>> {
    seq![
        "grep"@,
        "find"@,
        "cat"@,
        "head"@,
        "tail"@,
        "ls"@,
        "tree"@,
        "wc"@,
        "file"@,
        "rg"@,
    ]
}

/// The allow-list as it is cited in a rejection message.
pub open spec fn allowed_names_text() -> Seq<char> {
    "grep, find, cat, head, tail, ls, tree, wc, file, rg"@
}

/// Substrings that reject a command outright, wherever and however quoted
/// they appear: statement separators, subshell syntax and redirections.
pub open spec fn forbidden_list() -> Seq<Seq<char>> {
    seq![";"@, "&&"@, "||"@, "`"@, "$("@, ">"@, "<"@, ">>"@, "<<"@]
}

/// The allow-list as runtime values.
pub fn allowed_commands() -> (r: Vec<String>)
    ensures
        r.deep_view() == allowed_names(),
{
    let mut v: Vec<String> = Vec::new();
    v.push(String::from_str("grep"));
    v.push(String::from_str("find"));
    v.push(String::from_str("cat"));
    v.push(String::from_str("head"));
    v.push(String::from_str("tail"));
    v.push(String::from_str("ls"));
    v.push(String::from_str("tree"));
    v.push(String::from_str("wc"));
    v.push(String::from_str("file"));
    v.push(String::from_str("rg"));
    proof {
        assert(v.deep_view() =~= allowed_names());
    }
    v
}

/// The forbidden patterns as runtime values, in the order they are tried.
pub fn forbidden_patterns() -> (r: Vec<String>)
    ensures
        r.deep_view() == forbidden_list(),
{
    let mut v: Vec<String> = Vec::new();
    v.push(String::from_str(";"));
    v.push(String::from_str("&&"));
    v.push(String::from_str("||"));
    v.push(String::from_str("`"));
    v.push(String::from_str("$("));
    v.push(String::from_str(">"));
    v.push(String::from_str("<"));
    v.push(String::from_str(">>"));
    v.push(String::from_str("<<"));
    proof {
        assert(v.deep_view() =~= forbidden_list());
    }
    v
}

/// The first forbidden pattern (at list index `>= k`) occurring in `t`.
pub open spec fn first_forbidden(t: Seq<char>, k: int) -> Option<int>
    recommends
        0 <= k,
    decreases forbidden_list().len() - k,
{
    if k < 0 || k >= forbidden_list().len() {
        None
    } else if has_substr(t, forbidden_list()[k]) {
        Some(k)
    } else {
        first_forbidden(t, k + 1)
    }
}

/// A pipeline stage conforms when it is blank or its first token is on the
/// allow-list.
pub open spec fn stage_ok(stage: Seq<char>) -> bool {
    trim_seq(stage).len() == 0 || allowed_names().contains(first_token(stage))
}

/// The first non-conforming stage at index `>= j`, if any.
pub open spec fn first_bad_stage(stages: Seq<Seq<char>>, j: int) -> Option<int>
    recommends
        0 <= j,
    decreases stages.len() - j,
{
    if j < 0 || j >= stages.len() {
        None
    } else if !stage_ok(stages[j]) {
        Some(j)
    } else {
        first_bad_stage(stages, j + 1)
    }
}

/// The trimmed command is non-empty, free of forbidden patterns, and every
/// pipeline stage of it conforms.
pub open spec fn command_accepted(command: Seq<char>) -> bool {
    let t = trim_seq(command);
    t.len() > 0 && first_forbidden(t, 0) is None && first_bad_stage(split_stages(t, '|'), 0) is None
}

/// Exactly which verdict `validate_command` returns for `command`.
pub open spec fn validation_result(command: Seq<char>, r: Result<(), BashCommandError>) -> bool {
    let t = trim_seq(command);
    let stages = split_stages(t, '|');
    match r {
        Ok(()) => command_accepted(command),
        Err(BashCommandError::EmptyCommand) => t.len() == 0,
        Err(BashCommandError::ForbiddenPattern(p)) => t.len() > 0 && (first_forbidden(t, 0)
            matches Some(k) && p@ == forbidden_list()[k]),
        Err(BashCommandError::CommandNotAllowed(word, cited)) => t.len() > 0 && first_forbidden(
            t,
            0,
        ) is None && (first_bad_stage(stages, 0) matches Some(j) && word@ == first_token(stages[j])
            && cited@ == allowed_names_text()),
        Err(BashCommandError::Timeout(_)) => false,
        Err(BashCommandError::Io(_)) => false,
        Err(BashCommandError::CommandFailed(_, _)) => false,
    }
}

/// Arguments of one shell-execution call.
pub struct BashCommandArgs {
    /// The command to execute.
    pub command: String,
}

/// Everything that can go wrong in one shell-execution call.
#[derive(Debug, PartialEq)]
pub enum BashCommandError {
    /// The leading token of a stage, and the allow-list it failed.
    CommandNotAllowed(String, String),
    /// The forbidden pattern found in the command.
    ForbiddenPattern(String),
    /// The deadline, in seconds, that expired.
    Timeout(u64),
    /// Description of a launch or read failure.
    Io(String),
    /// Exit code and diagnostic output of a failed command.
    CommandFailed(i32, String),
    /// The command was empty after trimming.
    EmptyCommand,
}

/// How an accepted command is to be executed.
pub enum ExecPlan {
    /// The whole command line, to be handed to a shell for pipeline
    /// execution.
    Shell(String),
    /// The command name followed by its arguments, to be launched directly.
    Direct(Vec<String>),
}

/// The shell-execution capability, confined to one base directory.
pub struct BashCommand {
    base_dir: String,
}

impl BashCommand {
    /// The directory every execution is confined to.
    pub closed spec fn base(&self) -> Seq<char> {
        self.base_dir@
    }

    pub fn new(base_dir: String) -> (r: BashCommand)
        ensures
            r.base() == base_dir@,
    {
        BashCommand { base_dir }
    }

    pub fn base_dir(&self) -> (r: &str)
        ensures
            r@ == self.base(),
    {
        self.base_dir.as_str()
    }

    /// Split `s` on `delimiter`, treating delimiters inside single- or
    /// double-quoted spans as literal text.
    pub fn split_respecting_quotes(&self, s: &str, delimiter: char) -> (r: Vec<String>)
        ensures
            r.deep_view() == split_stages(s@, delimiter),
    {
        split_with_quotes(s, delimiter)
    }

    /// Accept or reject a command string: reject when the trimmed command is
    /// empty, cites a forbidden pattern anywhere (even inside quotes), or has
    /// a pipeline stage whose first token is not on the allow-list.
    pub fn validate_command(&self, command: &str) -> (r: Result<(), BashCommandError>)
        ensures
            validation_result(command@, r),
    {
        let trimmed = trim_of(command);
        if trimmed.unicode_len() == 0 {
            return Err(BashCommandError::EmptyCommand);
        }
        let patterns = forbidden_patterns();
        let ghost t = trim_seq(command@);
        let mut k: usize = 0;
        while k < patterns.len()
            invariant
                patterns.deep_view() == forbidden_list(),
                k <= patterns.len(),
                trimmed@ == t,
                t == trim_seq(command@),
                t.len() > 0,
                forall|k2: int| 0 <= k2 < k ==> !has_substr(t, forbidden_list()[k2]),
            decreases patterns.len() - k,
        {
            if contains_substr(trimmed, patterns[k].as_str()) {
                proof {
                    lemma_first_forbidden_prefix(t, k as int);
                }
                let cited = patterns[k].clone();
                return Err(BashCommandError::ForbiddenPattern(cited));
            }
            k = k + 1;
        }
        proof {
            lemma_first_forbidden_prefix(t, forbidden_list().len() as int);
        }
        let stages = self.split_respecting_quotes(trimmed, '|');
        let ghost stage_views = split_stages(t, '|');
        let mut j: usize = 0;
        while j < stages.len()
            invariant
                stages.deep_view() == stage_views,
                stage_views == split_stages(t, '|'),
                t == trim_seq(command@),
                t.len() > 0,
                first_forbidden(t, 0) is None,
                j <= stages.len(),
                forall|j2: int| 0 <= j2 < j ==> stage_ok(stage_views[j2]),
            decreases stages.len() - j,
        {
            let stage = &stages[j];
            let stage_trimmed = trim_of(stage.as_str());
            if stage_trimmed.unicode_len() > 0 {
                let word = first_token_of(stage.as_str());
                if !is_allowed_name(word) {
                    proof {
                        lemma_first_bad_stage_prefix(stage_views, j as int);
                    }
                    return Err(
                        BashCommandError::CommandNotAllowed(
                            String::from_str(word),
                            String::from_str("grep, find, cat, head, tail, ls, tree, wc, file, rg"),
                        ),
                    );
                }
            }
            proof {
                assert(stage_ok(stage_views[j as int]));
            }
            j = j + 1;
        }
        proof {
            lemma_first_bad_stage_prefix(stage_views, stage_views.len() as int);
        }
        Ok(())
    }

    /// Validate a command and decide how it runs: through a shell when it
    /// contains a pipe character, else directly from its whitespace-split
    /// parts.
    pub fn plan(&self, command: &str) -> (r: Result<ExecPlan, BashCommandError>)
        ensures
            r is Ok ==> command_accepted(command@),
            r matches Err(e) ==> validation_result(command@, Err(e)),
            r matches Ok(plan) ==> match plan {
                ExecPlan::Shell(line) => command@.contains('|') && line@ == command@,
                ExecPlan::Direct(parts) => !command@.contains('|') && parts.deep_view()
                    == tokens_from(command@, 0) && parts.deep_view().len() > 0,
            },
    {
        match self.validate_command(command) {
            Err(e) => Err(e),
            Ok(()) => {
                if contains_char(command, '|') {
                    Ok(ExecPlan::Shell(String::from_str(command)))
                } else {
                    let parts = split_whitespace_of(command);
                    proof {
                        lemma_trim_lo_bounds(command@);
                        lemma_trim_hi_bounds(command@);
                        let lo = crate::text::trim_lo(command@);
                        assert(!char_is_space(command@[lo]));
                        lemma_tokens_nonempty(command@, 0);
                    }
                    Ok(ExecPlan::Direct(parts))
                }
            },
        }
    }

    /// Map the outcome of a bounded execution to this capability's result:
    /// on success stdout with stderr appended after a separator, on failure
    /// the exit code with stderr preferred over stdout as the diagnostic, a
    /// signal termination reported with the sentinel code `-1`, a deadline
    /// expiry as a timeout.
    pub fn interpret(&self, outcome: ExecutionOutcome) -> (r: Result<String, BashCommandError>)
        ensures
            match outcome {
                ExecutionOutcome::Success { stdout, stderr } => r matches Ok(out) && out@
                    == combined_success_output(stdout@, stderr@),
                ExecutionOutcome::NonZeroExit { code, stdout, stderr } => r matches Err(
                    BashCommandError::CommandFailed(c, d),
                ) && c == code && d@ == diagnostic_output(stdout@, stderr@),
                ExecutionOutcome::Signaled { stdout, stderr } => r matches Err(
                    BashCommandError::CommandFailed(c, d),
                ) && c == -1 && d@ == diagnostic_output(stdout@, stderr@),
                ExecutionOutcome::TimedOut => r == Err::<String, BashCommandError>(
                    BashCommandError::Timeout(TIMEOUT_SECS),
                ),
                ExecutionOutcome::LaunchFailed { not_found, message } => r matches Err(
                    BashCommandError::Io(m),
                ) && m@ == message@,
            },
    {
        match outcome {
            ExecutionOutcome::Success { stdout, stderr } => {
                let mut out = stdout;
                if !stderr.as_str().is_empty() {
                    if !out.as_str().is_empty() {
                        out.append("\n--- stderr ---\n");
                    }
                    out.append(stderr.as_str());
                }
                Ok(out)
            },
            ExecutionOutcome::NonZeroExit { code, stdout, stderr } => {
                let diagnostic = if stderr.as_str().is_empty() {
                    stdout
                } else {
                    stderr
                };
                Err(BashCommandError::CommandFailed(code, diagnostic))
            },
            ExecutionOutcome::Signaled { stdout, stderr } => {
                let diagnostic = if stderr.as_str().is_empty() {
                    stdout
                } else {
                    stderr
                };
                Err(BashCommandError::CommandFailed(-1, diagnostic))
            },
            ExecutionOutcome::TimedOut => Err(BashCommandError::Timeout(TIMEOUT_SECS)),
            ExecutionOutcome::LaunchFailed { not_found: _, message } => Err(
                BashCommandError::Io(message),
            ),
        }
    }
}

/// What a successful execution reports: stdout, with stderr appended after a
/// separator line when both streams are non-empty.
pub open spec fn combined_success_output(stdout: Seq<char>, stderr: Seq<char>) -> Seq<char> {
    if stderr.len() == 0 {
        stdout
    } else if stdout.len() == 0 {
        stderr
    } else {
        stdout + "\n--- stderr ---\n"@ + stderr
    }
}

/// The diagnostic attached to a failed execution: stderr when it has
/// content, else stdout.
pub open spec fn diagnostic_output(stdout: Seq<char>, stderr: Seq<char>) -> Seq<char> {
    if stderr.len() == 0 {
        stdout
    } else {
        stderr
    }
}

/// Whether the character `c` occurs in `s`.
fn contains_char(s: &str, c: char) -> (r: bool)
    ensures
        r == s@.contains(c),
{
    let n: usize = s.unicode_len();
    let mut i: usize = 0;
    while i < n
        invariant
            i <= n,
            n == s@.len(),
            forall|k: int| 0 <= k < i ==> s@[k] != c,
        decreases n - i,
    {
        if s.get_char(i) == c {
            return true;
        }
        i = i + 1;
    }
    proof {
        assert(forall|k: int| 0 <= k < s@.len() ==> s@[k] != c);
    }
    false
}

/// Whether `word` is on the allow-list.
fn is_allowed_name(word: &str) -> (r: bool)
    ensures
        r == allowed_names().contains(word@),
{
    let names = allowed_commands();
    let mut i: usize = 0;
    while i < names.len()
        invariant
            names.deep_view() == allowed_names(),
            i <= names.len(),
            forall|k: int| 0 <= k < i ==> allowed_names()[k] != word@,
        decreases names.len() - i,
    {
        if str_eq(word, names[i].as_str()) {
            proof {
                assert(allowed_names()[i as int] == word@);
            }
            return true;
        }
        i = i + 1;
    }
    proof {
        if allowed_names().contains(word@) {
            let k = choose|k: int| 0 <= k < allowed_names().len() && allowed_names()[k] == word@;
            assert(allowed_names()[k] != word@);
        }
    }
    false
}

/// Scanning the patterns in order never revisits a miss: when none of the
/// first `k` patterns occurs, the scan's verdict equals the verdict of the
/// remaining patterns.
proof fn lemma_first_forbidden_prefix(t: Seq<char>, k: int)
    requires
        0 <= k <= forbidden_list().len(),
        forall|k2: int| 0 <= k2 < k ==> !has_substr(t, forbidden_list()[k2]),
    ensures
        first_forbidden(t, 0) == first_forbidden(t, k),
    decreases k,
{
    if k > 0 {
        lemma_first_forbidden_prefix(t, k - 1);
    }
}

proof fn lemma_first_bad_stage_prefix(stages: Seq<Seq<char>>, j: int)
    requires
        0 <= j <= stages.len(),
        forall|j2: int| 0 <= j2 < j ==> stage_ok(stages[j2]),
    ensures
        first_bad_stage(stages, 0) == first_bad_stage(stages, j),
    decreases j,
{
    if j > 0 {
        lemma_first_bad_stage_prefix(stages, j - 1);
    }
}

/// Every forbidden pattern is non-empty and free of whitespace, so trimming
/// the command can never remove an occurrence.
proof fn lemma_forbidden_patterns_wellformed(k: int)
    requires
        0 <= k < forbidden_list().len(),
    ensures
        forbidden_list()[k].len() > 0,
        forall|c: int| 0 <= c < forbidden_list()[k].len() ==> !char_is_space(forbidden_list()[k][c]),
{
    reveal_strlit(";");
    reveal_strlit("&&");
    reveal_strlit("||");
    reveal_strlit("`");
    reveal_strlit("$(");
    reveal_strlit(">");
    reveal_strlit("<");
    reveal_strlit(">>");
    reveal_strlit("<<");
    assert forall|c: int|
        0 <= c < forbidden_list()[k].len() implies !char_is_space(forbidden_list()[k][c]) by {
        if k == 0 {
            assert(forbidden_list()[k][c] == ';');
        } else if k == 1 {
            assert(forbidden_list()[k][c] == '&');
        } else if k == 2 {
            assert(forbidden_list()[k][c] == '|');
        } else if k == 3 {
            assert(forbidden_list()[k][c] == '`');
        } else if k == 4 {
            assert(forbidden_list()[k][c] == '$' || forbidden_list()[k][c] == '(');
        } else if k == 5 {
            assert(forbidden_list()[k][c] == '>');
        } else if k == 6 {
            assert(forbidden_list()[k][c] == '<');
        } else if k == 7 {
            assert(forbidden_list()[k][c] == '>');
        } else {
            assert(forbidden_list()[k][c] == '<');
        }
    }
}

proof fn lemma_first_forbidden_hit(t: Seq<char>, j: int, k: int)
    requires
        0 <= j <= k < forbidden_list().len(),
        has_substr(t, forbidden_list()[k]),
    ensures
        first_forbidden(t, j) is Some,
        first_forbidden(t, j) matches Some(m) && j <= m < forbidden_list().len() && has_substr(
            t,
            forbidden_list()[m],
        ),
    decreases k - j,
{
    if j < k && !has_substr(t, forbidden_list()[j]) {
        lemma_first_forbidden_hit(t, j + 1, k);
    }
}

/// A command containing any forbidden pattern is rejected with the
/// forbidden-pattern error, wherever the pattern stands and regardless of
/// quoting.
pub proof fn lemma_forbidden_always_rejected(
    command: Seq<char>,
    r: Result<(), BashCommandError>,
    k: int,
)
    requires
        validation_result(command, r),
        0 <= k < forbidden_list().len(),
        has_substr(command, forbidden_list()[k]),
    ensures
        r matches Err(BashCommandError::ForbiddenPattern(cited)) && forbidden_list().contains(
            cited@,
        ) && has_substr(trim_seq(command), cited@),
{
    let t = trim_seq(command);
    lemma_forbidden_patterns_wellformed(k);
    lemma_trim_preserves_substr(command, forbidden_list()[k]);
    let i = choose|i: int| crate::text::substr_at(t, forbidden_list()[k], i);
    assert(t.len() > 0);
    lemma_first_forbidden_hit(t, 0, k);
    let m = first_forbidden(t, 0)->Some_0;
    match r {
        Ok(()) => {
            assert(false);
        },
        Err(BashCommandError::ForbiddenPattern(cited)) => {
            assert(cited@ == forbidden_list()[m]);
            assert(forbidden_list().contains(cited@));
        },
        _ => {
            assert(false);
        },
    }
}

proof fn lemma_first_bad_stage_none(stages: Seq<Seq<char>>, j: int)
    requires
        0 <= j,
    ensures
        first_bad_stage(stages, j) is None <==> forall|j2: int|
            j <= j2 < stages.len() ==> stage_ok(stages[j2]),
    decreases stages.len() - j,
{
    if j < stages.len() {
        lemma_first_bad_stage_none(stages, j + 1);
    }
}

/// Acceptance is exactly stage-wise conformance: a non-empty command free of
/// forbidden patterns is accepted if and only if every pipeline stage is
/// blank or starts with an allow-listed token; one bad stage rejects the
/// whole pipeline.
pub proof fn lemma_acceptance_characterization(command: Seq<char>)
    ensures
        command_accepted(command) <==> ({
            let t = trim_seq(command);
            t.len() > 0 && first_forbidden(t, 0) is None && forall|j: int|
                0 <= j < split_stages(t, '|').len() ==> stage_ok(split_stages(t, '|')[j])
        }),
{
    let t = trim_seq(command);
    lemma_first_bad_stage_none(split_stages(t, '|'), 0);
}

} // verus!
