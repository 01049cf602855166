use loglens::recall::{line_match, match_line, matching_lines};

#[test]
fn test_match_line() {
    assert!(match_line("Info retry request", "retry"));
}

#[test]
fn test_no_match_line() {
    assert!(!match_line("Info retry request", "warnings"));
}

#[test]
fn match_valid_line() {
    assert!(line_match("Info retry", "retry"))
}

#[test]
fn match_invalid_line() {
    assert!(!line_match("Info retry", "missing"))
}

#[test]
fn recall_match_is_case_sensitive() {
    assert!(!line_match("Info retry", "RETRY"));
    assert!(!match_line("Info retry", "info"));
}

#[test]
fn matching_lines_keeps_order_and_counts() {
    let lines = vec!["Info retry", "Warn timeout", "Error retry failed", "retry"];
    let matched = matching_lines(&lines, "retry");
    assert_eq!(matched, vec!["Info retry", "Error retry failed", "retry"]);
    assert_eq!(matching_lines(&lines, "missing").len(), 0);
    assert_eq!(matching_lines(&Vec::new(), "x").len(), 0);
}
