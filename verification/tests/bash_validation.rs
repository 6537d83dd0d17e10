use horse::bash::{allowed_commands, BashCommand, BashCommandError};

#[test]
fn test_split_respecting_quotes() {
    let bash = BashCommand::new(String::from("."));

    // Test simple pipe without quotes
    let result = bash.split_respecting_quotes("ls | grep test", '|');
    assert_eq!(result, vec!["ls ", " grep test"]);

    // Test pipe inside double quotes (should not split)
    let result = bash.split_respecting_quotes(r#"grep -E "README|readme" | cat"#, '|');
    assert_eq!(result, vec![r#"grep -E "README|readme" "#, " cat"]);

    // Test pipe inside single quotes (should not split)
    let result = bash.split_respecting_quotes(r#"grep -E 'README|readme' | cat"#, '|');
    assert_eq!(result, vec![r#"grep -E 'README|readme' "#, " cat"]);

    // Test multiple pipes in quotes
    let result = bash.split_respecting_quotes(
        r#"find . -type f | grep -E "README|readme|project|overview" | head"#,
        '|',
    );
    assert_eq!(
        result,
        vec![
            "find . -type f ",
            r#" grep -E "README|readme|project|overview" "#,
            " head"
        ]
    );

    // Test no pipes
    let result = bash.split_respecting_quotes("ls -la", '|');
    assert_eq!(result, vec!["ls -la"]);
}

#[test]
fn test_validate_command_with_quoted_pipes() {
    let bash = BashCommand::new(String::from("."));

    // This should pass - pipes inside quotes should not cause validation issues
    let result = bash.validate_command(
        r#"find . -type f | grep -E "README|readme|project|overview|description" | grep -i "ollana""#,
    );
    assert!(result.is_ok(), "Expected Ok, got: {result:?}");

    // This should also pass
    let result = bash.validate_command(r#"grep -E "foo|bar|baz" file.txt"#);
    assert!(result.is_ok(), "Expected Ok, got: {result:?}");

    // This should fail - "notallowed" is not in whitelist
    let result = bash.validate_command("notallowed arg1 arg2");
    assert!(result.is_err());
    assert!(matches!(
        result,
        Err(BashCommandError::CommandNotAllowed(_, _))
    ));
}

#[test]
fn test_validate_allowed_commands() {
    let bash = BashCommand::new(String::from("."));

    // Test all allowed commands
    for cmd in allowed_commands() {
        let result = bash.validate_command(&format!("{cmd} arg1"));
        assert!(result.is_ok(), "Command {cmd} should be allowed");
    }

    // Test piped allowed commands
    let result = bash.validate_command("find . -name test | grep foo");
    assert!(result.is_ok());

    let result = bash.validate_command("cat file.txt | head -n 10");
    assert!(result.is_ok());
}

#[test]
fn test_validate_forbidden_patterns() {
    let bash = BashCommand::new(String::from("."));

    // Test forbidden patterns
    let result = bash.validate_command("ls; rm -rf /");
    assert!(matches!(result, Err(BashCommandError::ForbiddenPattern(_))));

    let result = bash.validate_command("ls && echo test");
    assert!(matches!(result, Err(BashCommandError::ForbiddenPattern(_))));

    let result = bash.validate_command("ls > output.txt");
    assert!(matches!(result, Err(BashCommandError::ForbiddenPattern(_))));
}

#[test]
fn test_validate_empty_command() {
    let bash = BashCommand::new(String::from("."));
    assert_eq!(
        bash.validate_command(""),
        Err(BashCommandError::EmptyCommand)
    );
    assert_eq!(
        bash.validate_command("   \t  "),
        Err(BashCommandError::EmptyCommand)
    );
}

#[test]
fn test_forbidden_pattern_cites_semicolon() {
    let bash = BashCommand::new(String::from("."));
    match bash.validate_command("ls; rm -rf /") {
        Err(BashCommandError::ForbiddenPattern(p)) => assert_eq!(p, ";"),
        other => panic!("expected ForbiddenPattern, got {other:?}"),
    }
}

#[test]
fn test_forbidden_pattern_inside_quotes_still_rejected() {
    let bash = BashCommand::new(String::from("."));
    // quoting does not shelter a forbidden operator
    match bash.validate_command("grep 'a;b' file.txt") {
        Err(BashCommandError::ForbiddenPattern(p)) => assert_eq!(p, ";"),
        other => panic!("expected ForbiddenPattern, got {other:?}"),
    }
    match bash.validate_command(r#"grep "a > b" file.txt"#) {
        Err(BashCommandError::ForbiddenPattern(p)) => assert_eq!(p, ">"),
        other => panic!("expected ForbiddenPattern, got {other:?}"),
    }
}

#[test]
fn test_single_disallowed_stage_rejects_pipeline() {
    let bash = BashCommand::new(String::from("."));
    match bash.validate_command("ls -la | evil --flag") {
        Err(BashCommandError::CommandNotAllowed(word, cited)) => {
            assert_eq!(word, "evil");
            assert_eq!(cited, "grep, find, cat, head, tail, ls, tree, wc, file, rg");
        }
        other => panic!("expected CommandNotAllowed, got {other:?}"),
    }
    // every stage must conform, including the first
    assert!(matches!(
        bash.validate_command("evil | ls"),
        Err(BashCommandError::CommandNotAllowed(_, _))
    ));
}

#[test]
fn test_quoted_pipe_is_one_stage() {
    let bash = BashCommand::new(String::from("."));
    // the pipe inside the quotes is literal: one stage, not two
    let stages = bash.split_respecting_quotes(r#"grep -E "A|B" file"#, '|');
    assert_eq!(stages.len(), 1);
    // an accepted two-stage pipeline around a quoted pipe
    let result = bash.validate_command("grep -E 'A|B' notes.txt | head");
    assert!(result.is_ok(), "Expected Ok, got: {result:?}");
    let stages = bash.split_respecting_quotes("grep -E 'A|B' notes.txt | head", '|');
    assert_eq!(stages, vec!["grep -E 'A|B' notes.txt ", " head"]);
}

#[test]
fn test_trailing_pipe_keeps_empty_stage() {
    let bash = BashCommand::new(String::from("."));
    let stages = bash.split_respecting_quotes("ls |", '|');
    assert_eq!(stages, vec!["ls ", ""]);
    // a blank stage is skipped rather than counted as a violation
    assert!(bash.validate_command("ls |").is_ok());
}

#[test]
fn test_backslash_escaped_quote_does_not_toggle() {
    let bash = BashCommand::new(String::from("."));
    // the escaped quote keeps quote mode off, so the pipe still splits
    let stages = bash.split_respecting_quotes(r"grep \' a | head", '|');
    assert_eq!(stages, vec![r"grep \' a ", " head"]);
}
