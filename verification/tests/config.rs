use loglens::config::{parse_ignore_case, resolve_ignore_case, ConfigError};

#[test]
fn default_true_all_none() {
    assert!(resolve_ignore_case(true, None, None));
}

#[test]
fn all_none() {
    assert!(!resolve_ignore_case(false, None, None));
}

#[test]
fn file_true_cli_none() {
    assert!(resolve_ignore_case(false, Some(true), None));
}

#[test]
fn file_false_cli_none() {
    assert!(!resolve_ignore_case(false, Some(false), None));
}

#[test]
fn file_false_cli_true() {
    assert!(resolve_ignore_case(false, Some(false), Some(true)));
}

#[test]
fn file_true_cli_true() {
    assert!(resolve_ignore_case(false, Some(true), Some(true)));
}

#[test]
fn file_true_cli_false() {
    assert!(!resolve_ignore_case(false, Some(true), Some(false)))
}

#[test]
fn file_false_cli_false() {
    assert!(!resolve_ignore_case(false, Some(false), Some(false)))
}

#[test]
fn true_parse_log() {
    assert!(matches!(parse_ignore_case("ignore_case=true"), Ok(true)));
}

#[test]
fn false_parse_log() {
    assert!(matches!(
        parse_ignore_case(" ignore_case=false "),
        Ok(false)
    ));
}

#[test]
fn maybe_parse_log() {
    assert!(matches!(
        parse_ignore_case("ignore_case=maybe"),
        Err(ConfigError::InvalidContent {content})
         if content=="ignore_case=maybe"
    ));
}

#[test]
fn default_false_file_none_cli_true() {
    assert!(resolve_ignore_case(false, None, Some(true)));
}

#[test]
fn default_true_file_false_wins() {
    assert!(!resolve_ignore_case(true, Some(false), None));
}

#[test]
fn parse_trims_newlines_and_tabs() {
    assert!(matches!(parse_ignore_case("\tignore_case=true\n"), Ok(true)));
    assert!(matches!(parse_ignore_case("\u{3000}ignore_case=false\u{a0}"), Ok(false)));
}

#[test]
fn invalid_content_is_trimmed() {
    assert!(matches!(
        parse_ignore_case("  ignore_case = true \n"),
        Err(ConfigError::InvalidContent { content }) if content == "ignore_case = true"
    ));
}

#[test]
fn empty_content_is_invalid() {
    assert!(matches!(
        parse_ignore_case(" \n "),
        Err(ConfigError::InvalidContent { content }) if content.is_empty()
    ));
}

#[test]
fn setting_is_case_sensitive() {
    assert!(matches!(
        parse_ignore_case("IGNORE_CASE=TRUE"),
        Err(ConfigError::InvalidContent { content }) if content == "IGNORE_CASE=TRUE"
    ));
}
