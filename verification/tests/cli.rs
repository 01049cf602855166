use loglens::cli::{config_paths, parse_cli_args, resolve_settings, CliFlag, CliRequest, RunRequest, Settings};
use loglens::model::LogLevel;

fn args(words: &[&str]) -> Vec<String> {
    words.iter().map(|w| w.to_string()).collect()
}

fn run_request(words: &[&str]) -> RunRequest {
    match parse_cli_args(&args(words)) {
        Ok(CliRequest::Run(req)) => req,
        _ => panic!("expected a run request for {words:?}"),
    }
}

#[test]
fn cli_no_arguments_asks_for_path() {
    assert!(matches!(parse_cli_args(&args(&[])), Err(m) if m == "pls input file path"));
}

#[test]
fn cli_missing_keyword_asks_for_filter() {
    assert!(matches!(parse_cli_args(&args(&["fixtures/filter.log"])), Err(m) if m == "pls input filter"));
}

#[test]
fn cli_help_in_place_of_the_file() {
    assert!(matches!(parse_cli_args(&args(&["--help"])), Ok(CliRequest::Help)));
    assert!(matches!(parse_cli_args(&args(&["--help", "x", "--bad"])), Ok(CliRequest::Help)));
}

#[test]
fn cli_help_after_the_file_is_an_unknown_flag() {
    let req = run_request(&["a.log", "retry", "--help"]);
    assert!(req.flags.is_empty());
    assert_eq!(req.stop.as_deref(), Some("unknown flag: --help"));
}

#[test]
fn cli_plain_run() {
    let req = run_request(&["fixtures/filter.log", "retry"]);
    assert_eq!(req.path, "fixtures/filter.log");
    assert_eq!(req.keyword, "retry");
    assert!(req.flags.is_empty());
    assert!(req.stop.is_none());
}

#[test]
fn cli_unknown_flag_message() {
    let req = run_request(&["fixtures/filter.log", "retry", "--bad"]);
    assert_eq!(req.stop.as_deref(), Some("unknown flag: --bad"));
}

#[test]
fn cli_config_without_path() {
    let req = run_request(&["fixtures/filter.log", "retry", "--config"]);
    assert!(req.flags.is_empty());
    assert_eq!(req.stop.as_deref(), Some("pls input config file path"));
}

#[test]
fn cli_level_without_value() {
    let req = run_request(&["fixtures/filter.log", "retry", "--level"]);
    assert_eq!(req.stop.as_deref(), Some("pls input level"));
}

#[test]
fn cli_unknown_level() {
    let req = run_request(&["fixtures/filter.log", "retry", "--level", "DEBUG"]);
    assert_eq!(req.stop.as_deref(), Some("unknown level DEBUG"));
}

#[test]
fn cli_options_before_an_error_are_kept() {
    let req = run_request(&["f", "k", "--config", "a.conf", "--ignore-case", "--bad", "--level", "INFO"]);
    assert_eq!(req.flags.len(), 2);
    assert!(matches!(&req.flags[0], CliFlag::Config(p) if p == "a.conf"));
    assert!(matches!(req.flags[1], CliFlag::IgnoreCase));
    assert_eq!(req.stop.as_deref(), Some("unknown flag: --bad"));
}

#[test]
fn cli_all_options_in_order() {
    let req = run_request(&["f", "k", "--level", "WARN", "--config", "a.conf", "--ignore-case", "--config", "b.conf"]);
    assert!(req.stop.is_none());
    assert_eq!(req.flags.len(), 4);
    assert!(matches!(req.flags[0], CliFlag::Level(LogLevel::Warn)));
    assert_eq!(config_paths(&req.flags), vec!["a.conf".to_string(), "b.conf".to_string()]);
}

#[test]
fn settings_ignore_case_option_wins_either_order() {
    let before = run_request(&["f", "k", "--ignore-case", "--config", "false.conf"]);
    let after = run_request(&["f", "k", "--config", "false.conf", "--ignore-case"]);
    for req in [before, after] {
        let s = resolve_settings(&req.flags, &vec![false]);
        assert_eq!(s, Settings { ignore_case: true, level: None });
    }
}

#[test]
fn settings_last_config_decides() {
    let req = run_request(&["f", "k", "--config", "a", "--config", "b"]);
    assert!(resolve_settings(&req.flags, &vec![false, true]).ignore_case);
    assert!(!resolve_settings(&req.flags, &vec![true, false]).ignore_case);
    assert!(!resolve_settings(&Vec::new(), &Vec::new()).ignore_case);
}

#[test]
fn settings_last_level_decides() {
    let req = run_request(&["f", "k", "--level", "INFO", "--level", "ERROR"]);
    assert_eq!(resolve_settings(&req.flags, &Vec::new()).level, Some(LogLevel::Error));
}
