use horse::read_file::{ReadFile, ReadFileError};

#[test]
fn test_resolve_rejects_traversal() {
    let rf = ReadFile::new(String::from("/base"));
    match rf.resolve_path("../../etc/passwd") {
        Err(ReadFileError::PathTraversal(p)) => assert_eq!(p, "../../etc/passwd"),
        other => panic!("expected PathTraversal, got {other:?}"),
    }
    assert!(matches!(
        rf.resolve_path("docs/../secret"),
        Err(ReadFileError::PathTraversal(_))
    ));
    // deliberately stricter than component parsing: the substring alone rejects
    assert!(matches!(
        rf.resolve_path("notes..txt"),
        Err(ReadFileError::PathTraversal(_))
    ));
}

#[test]
fn test_resolve_joins_relative_path() {
    let rf = ReadFile::new(String::from("/base"));
    assert_eq!(rf.resolve_path("notes.txt"), Ok(String::from("/base/notes.txt")));
    let rf = ReadFile::new(String::from("/base/"));
    assert_eq!(rf.resolve_path("notes.txt"), Ok(String::from("/base/notes.txt")));
}

#[test]
fn test_resolve_keeps_absolute_path_for_confinement() {
    // an absolute path replaces the base on join, as Path::join does; it is
    // the confinement check afterwards that rejects it
    let rf = ReadFile::new(String::from("/base"));
    assert_eq!(rf.resolve_path("/etc/hosts"), Ok(String::from("/etc/hosts")));
    assert!(matches!(
        rf.confine("/base", "/etc/hosts"),
        Err(ReadFileError::OutsideBaseDir)
    ));
}

#[test]
fn test_confine_accepts_descendants() {
    let rf = ReadFile::new(String::from("/base"));
    let confined = rf.confine("/base", "/base/sub/notes.txt").unwrap();
    assert_eq!(confined.as_path(), "/base/sub/notes.txt");
    // the base directory itself is confined
    assert!(rf.confine("/base", "/base").is_ok());
}

#[test]
fn test_confine_rejects_escapes() {
    let rf = ReadFile::new(String::from("/base"));
    // e.g. a symlink that canonicalized to a sibling directory
    assert!(matches!(
        rf.confine("/base", "/elsewhere/notes.txt"),
        Err(ReadFileError::OutsideBaseDir)
    ));
    // a textual prefix that is not a component prefix must not pass
    assert!(matches!(
        rf.confine("/base", "/basement/notes.txt"),
        Err(ReadFileError::OutsideBaseDir)
    ));
    assert!(matches!(
        rf.confine("/base", "/bas"),
        Err(ReadFileError::OutsideBaseDir)
    ));
}

fn ten_lines() -> String {
    let mut s = String::new();
    for i in 1..=10 {
        s.push_str(&format!("line{i}\n"));
    }
    s
}

#[test]
fn test_render_inclusive_window() {
    let rf = ReadFile::new(String::from("."));
    let out = rf.render_contents(&ten_lines(), Some(3), Some(5));
    assert_eq!(out, "line3\nline4\nline5");
}

#[test]
fn test_render_start_zero_behaves_as_first_line() {
    let rf = ReadFile::new(String::from("."));
    let all = rf.render_contents(&ten_lines(), None, None);
    let from_zero = rf.render_contents(&ten_lines(), Some(0), None);
    let from_one = rf.render_contents(&ten_lines(), Some(1), None);
    assert_eq!(all, from_zero);
    assert_eq!(all, from_one);
    assert_eq!(all, "line1\nline2\nline3\nline4\nline5\nline6\nline7\nline8\nline9\nline10");
}

#[test]
fn test_render_end_saturates_to_last_line() {
    let rf = ReadFile::new(String::from("."));
    let out = rf.render_contents(&ten_lines(), Some(8), Some(999));
    assert_eq!(out, "line8\nline9\nline10");
}

#[test]
fn test_render_empty_window() {
    let rf = ReadFile::new(String::from("."));
    assert_eq!(rf.render_contents(&ten_lines(), Some(7), Some(3)), "");
    assert_eq!(rf.render_contents(&ten_lines(), Some(11), None), "");
}

#[test]
fn test_render_first_two_lines() {
    let rf = ReadFile::new(String::from("."));
    let content = "alpha\nbeta\ngamma\ndelta\nepsilon\n";
    let out = rf.render_contents(content, Some(1), Some(2));
    assert_eq!(out, "alpha\nbeta");
}

#[test]
fn test_render_handles_crlf() {
    let rf = ReadFile::new(String::from("."));
    let out = rf.render_contents("alpha\r\nbeta\r\n", None, None);
    assert_eq!(out, "alpha\nbeta");
}

#[test]
fn test_render_truncates_beyond_line_limit() {
    let rf = ReadFile::new(String::from("."));
    let mut content = String::new();
    for i in 0..1500 {
        content.push_str(&format!("{i}\n"));
    }
    let out = rf.render_contents(&content, None, None);
    assert!(out.ends_with("\n\n[truncated - file exceeds 50KB or 1000 lines limit]"));
    let body = out.strip_suffix("\n\n[truncated - file exceeds 50KB or 1000 lines limit]").unwrap();
    assert_eq!(body.lines().count(), 1000);
    assert!(body.ends_with("\n999"));
}

#[test]
fn test_render_truncates_beyond_byte_limit() {
    let rf = ReadFile::new(String::from("."));
    let mut content = String::new();
    for _ in 0..3 {
        for _ in 0..30000 {
            content.push('a');
        }
        content.push('\n');
    }
    let out = rf.render_contents(&content, None, None);
    // the first 30000-byte line fits; the second would cross 50 KiB
    assert!(out.ends_with("\n\n[truncated - file exceeds 50KB or 1000 lines limit]"));
    let body = out.strip_suffix("\n\n[truncated - file exceeds 50KB or 1000 lines limit]").unwrap();
    assert_eq!(body.len(), 30000);
}

#[test]
fn test_render_within_limits_has_no_marker() {
    let rf = ReadFile::new(String::from("."));
    let out = rf.render_contents(&ten_lines(), None, None);
    assert!(!out.contains("[truncated"));
}
